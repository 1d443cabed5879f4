//! Numbers written out in base ten.

use vstd::arithmetic::div_mod::lemma_div_denominator;
use vstd::arithmetic::power::{lemma_pow0, lemma_pow1, lemma_pow_adds, lemma_pow_positive, pow};
use vstd::prelude::*;
use vstd::string::StringExecFns;

verus! {

/// The character of one decimal digit.
pub open spec fn digit(d: nat) -> char {
    (48 + d) as char
}

/// `n` in base ten, without leading zeros.
pub open spec fn decimal(n: nat) -> Seq<char>
    decreases n,
{
    if n < 10 {
        seq![digit(n)]
    } else {
        decimal(n / 10).push(digit(n % 10))
    }
}

/// `i` in base ten, with a minus sign in front of a negative number.
pub open spec fn signed_decimal(i: int) -> Seq<char> {
    if i < 0 {
        seq!['-'] + decimal((-i) as nat)
    } else {
        decimal(i as nat)
    }
}

/// `c` is one of the ten decimal digits.
pub open spec fn is_digit(c: char) -> bool {
    '0' <= c <= '9'
}

/// The number that `text` spells, where it is the base ten of a `u64`.
pub open spec fn unsigned_value(text: Seq<char>) -> Option<u64> {
    if exists|n: u64| text == #[trigger] decimal(n as nat) {
        Some(choose|n: u64| text == #[trigger] decimal(n as nat))
    } else {
        None
    }
}

/// Two numbers with the same base ten are the same number.
pub proof fn law_decimal_is_injective(m: nat, n: nat)
    ensures
        decimal(m) == decimal(n) <==> m == n,
    decreases m,
{
    if decimal(m) == decimal(n) {
        lemma_decimal_ends(m);
        lemma_decimal_ends(n);
        assert(digit(m % 10) == digit(n % 10));
        assert(m % 10 == n % 10);
        if m >= 10 && n >= 10 {
            assert(decimal(m).drop_last() =~= decimal(m / 10));
            assert(decimal(n).drop_last() =~= decimal(n / 10));
            law_decimal_is_injective(m / 10, n / 10);
        } else if m >= 10 {
            lemma_decimal_ends(m / 10);
        } else if n >= 10 {
            lemma_decimal_ends(n / 10);
        }
    }
}

/// A text spells `n` exactly when it is the base ten of `n`.
pub proof fn law_unsigned_value(text: Seq<char>, n: u64)
    ensures
        unsigned_value(text) == Some(n) <==> text == decimal(n as nat),
{
    if text == decimal(n as nat) {
        let chosen = choose|k: u64| text == #[trigger] decimal(k as nat);
        law_decimal_is_injective(chosen as nat, n as nat);
    }
}

/// Base ten is digits and nothing else.
pub proof fn law_decimal_is_digits(n: nat)
    ensures
        forall|i: int| 0 <= i < decimal(n).len() ==> is_digit(#[trigger] decimal(n)[i]),
    decreases n,
{
    if n >= 10 {
        law_decimal_is_digits(n / 10);
        assert forall|i: int| 0 <= i < decimal(n).len() implies is_digit(
            #[trigger] decimal(n)[i],
        ) by {
            if i < decimal(n / 10).len() {
                assert(decimal(n)[i] == decimal(n / 10)[i]);
            }
        }
    }
}

proof fn lemma_decimal_ends(n: nat)
    ensures
        decimal(n).len() >= 1,
        decimal(n).last() == digit(n % 10),
        n >= 10 ==> decimal(n).len() == decimal(n / 10).len() + 1,
    decreases n,
{
    if n >= 10 {
        lemma_decimal_ends(n / 10);
    }
}

fn digit_text(d: u64) -> (text: &'static str)
    requires
        d < 10,
    ensures
        text@ == seq![digit(d as nat)],
{
    proof {
        reveal_strlit("0");
        reveal_strlit("1");
        reveal_strlit("2");
        reveal_strlit("3");
        reveal_strlit("4");
        reveal_strlit("5");
        reveal_strlit("6");
        reveal_strlit("7");
        reveal_strlit("8");
        reveal_strlit("9");
    }
    let text = match d {
        0 => "0",
        1 => "1",
        2 => "2",
        3 => "3",
        4 => "4",
        5 => "5",
        6 => "6",
        7 => "7",
        8 => "8",
        _ => "9",
    };
    assert(text@ =~= seq![digit(d as nat)]);
    text
}

/// Appends `n` in base ten to `out`.
pub fn push_decimal(out: &mut String, n: u64)
    ensures
        final(out)@ == old(out)@ + decimal(n as nat),
    decreases n,
{
    if n >= 10 {
        push_decimal(out, n / 10);
    }
    out.append(digit_text(n % 10));
    assert(out@ =~= old(out)@ + decimal(n as nat));
}

/// Appends `i` in base ten to `out`.
pub fn push_signed_decimal(out: &mut String, i: i64)
    ensures
        final(out)@ == old(out)@ + signed_decimal(i as int),
{
    if i < 0 {
        proof {
            reveal_strlit("-");
        }
        out.append("-");
        assert("-"@ =~= seq!['-']);
        push_decimal(out, (-(i as i128)) as u64);
        assert(out@ =~= old(out)@ + signed_decimal(i as int));
    } else {
        push_decimal(out, i as u64);
    }
}

/// Every digit stands in its place: counted from the right, the digit at place `i`
/// is `n / 10^i` modulo ten, and there are as many digits as `n` needs.
pub proof fn law_decimal_digits_in_place(n: nat)
    ensures
        decimal(n).len() >= 1,
        n < pow(10, decimal(n).len()),
        decimal(n).len() > 1 ==> pow(10, (decimal(n).len() - 1) as nat) <= n,
        forall|i: int|
            0 <= i < decimal(n).len() ==> (#[trigger] decimal(n)[decimal(n).len() - 1 - i]) as int
                == '0' as int + (n as int / pow(10, i as nat)) % 10,
    decreases n,
{
    lemma_pow0(10);
    lemma_pow1(10);
    if n >= 10 {
        let m = n / 10;
        let len = decimal(m).len();
        law_decimal_digits_in_place(m);
        assert(decimal(n).len() == len + 1);
        lemma_pow_adds(10, 1, len);
        assert(pow(10, len + 1) == 10 * pow(10, len));
        if len > 1 {
            lemma_pow_adds(10, 1, (len - 1) as nat);
        }
        assert forall|i: int| 0 <= i < decimal(n).len() implies (#[trigger] decimal(n)[decimal(
            n,
        ).len() - 1 - i]) as int == '0' as int + (n as int / pow(10, i as nat)) % 10 by {
            if i > 0 {
                let before = (i - 1) as nat;
                assert(decimal(n)[len - i] == decimal(m)[len - 1 - before as int]);
                lemma_pow_positive(10, before);
                lemma_pow_adds(10, 1, before);
                assert(pow(10, i as nat) == 10 * pow(10, before));
                lemma_div_denominator(n as int, 10, pow(10, before));
            }
        }
    }
}

/// A negative number is a minus sign and its size; any other number has no sign.
pub proof fn law_sign_stands_in_front(i: int)
    ensures
        i < 0 ==> signed_decimal(i).len() > 1 && signed_decimal(i)[0] == '-' && signed_decimal(
            i,
        ).skip(1) == decimal((-i) as nat),
        i >= 0 ==> signed_decimal(i) == decimal(i as nat),
{
    if i < 0 {
        lemma_decimal_ends((-i) as nat);
        assert(signed_decimal(i).skip(1) =~= decimal((-i) as nat));
    }
}

/// A number that is followed by something other than a digit can be read back, and
/// so can what follows it.
pub proof fn law_number_is_read_back(m: nat, n: nat, after_m: Seq<char>, after_n: Seq<char>)
    requires
        after_m.len() > 0 && !('0' <= after_m[0] <= '9'),
        after_n.len() > 0 && !('0' <= after_n[0] <= '9'),
        decimal(m) + after_m == decimal(n) + after_n,
    ensures
        m == n,
        after_m == after_n,
{
    let a = decimal(m);
    let b = decimal(n);
    law_decimal_is_digits(m);
    law_decimal_is_digits(n);
    let whole = a + after_m;
    assert(whole[a.len() as int] == after_m[0]);
    assert((b + after_n)[b.len() as int] == after_n[0]);
    if a.len() < b.len() {
        assert((b + after_n)[a.len() as int] == b[a.len() as int]);
    } else if b.len() < a.len() {
        assert(whole[b.len() as int] == a[b.len() as int]);
    }
    assert(whole.take(a.len() as int) =~= a);
    assert((b + after_n).take(b.len() as int) =~= b);
    assert(whole.skip(a.len() as int) =~= after_m);
    assert((b + after_n).skip(b.len() as int) =~= after_n);
    law_decimal_is_injective(m, n);
}

} // verus!
