use vstd::prelude::*;

use crate::error::Error;

verus! {

/// The character of a decimal digit `d < 10`.
pub open spec fn digit_char(d: nat) -> char {
    ((d + 48) as u8) as char
}

/// Canonical base-10 text of `n`: no sign, no separators, and no leading
/// zero except for `0` itself.
pub open spec fn decimal_of(n: nat) -> Seq<char>
    decreases n,
{
    if n < 10 {
        seq![digit_char(n)]
    } else {
        decimal_of(n / 10).push(digit_char(n % 10))
    }
}

/// The one-character string of the digit `d`.
fn digit_str(d: usize) -> (r: &'static str)
    requires
        d < 10,
    ensures
        r@ == seq![digit_char(d as nat)],
{
    proof {
        reveal_strlit("0");
        reveal_strlit("1");
        reveal_strlit("2");
        reveal_strlit("3");
        reveal_strlit("4");
        reveal_strlit("5");
        reveal_strlit("6");
        reveal_strlit("7");
        reveal_strlit("8");
        reveal_strlit("9");
    }
    match d {
        0 => "0",
        1 => "1",
        2 => "2",
        3 => "3",
        4 => "4",
        5 => "5",
        6 => "6",
        7 => "7",
        8 => "8",
        _ => "9",
    }
}

/// Appends the decimal text of `n` to `s`.
fn push_decimal(s: &mut String, n: usize)
    ensures
        final(s)@ == old(s)@ + decimal_of(n as nat),
    decreases n,
{
    if n >= 10 {
        push_decimal(s, n / 10);
    }
    s.append(digit_str(n % 10));
    proof {
        if n >= 10 {
            assert(old(s)@ + decimal_of(n as nat) =~= old(s)@ + decimal_of((n / 10) as nat) + seq![
                digit_char((n % 10) as nat),
            ]);
        }
    }
}

/// The decimal text of `a + b`, or `Overflow` where the sum exceeds
/// `usize::MAX`.
pub fn sum_as_string(a: usize, b: usize) -> (r: Result<String, Error>)
    ensures
        r is Ok <==> a + b <= usize::MAX,
        r matches Ok(s) ==> s@ == decimal_of((a + b) as nat),
        r matches Err(e) ==> e == Error::Overflow,
{
    match a.checked_add(b) {
        Some(n) => {
            let mut s = String::new();
            push_decimal(&mut s, n);
            proof {
                assert(s@ =~= decimal_of(n as nat));
            }
            Ok(s)
        },
        None => Err(Error::Overflow),
    }
}

/// The decimal text has the shape of an unsigned integer: one or more
/// ASCII digits, the first of which is `0` only for the number zero.
pub proof fn lemma_decimal_shape(n: nat)
    ensures
        decimal_of(n).len() >= 1,
        forall|i: int| 0 <= i < decimal_of(n).len() ==> '0' <= #[trigger] decimal_of(n)[i] <= '9',
        decimal_of(n)[0] == '0' <==> n == 0,
    decreases n,
{
    if n >= 10 {
        lemma_decimal_shape(n / 10);
        assert(decimal_of(n)[0] == decimal_of(n / 10)[0]);
    }
}

/// Summing is symmetric in its operands: swapping them gives the same
/// result, the same text or the same error.
pub proof fn lemma_sum_commutative(a: usize, b: usize)
    ensures
        (a + b <= usize::MAX) == (b + a <= usize::MAX),
        decimal_of((a + b) as nat) == decimal_of((b + a) as nat),
{
}

} // verus!
