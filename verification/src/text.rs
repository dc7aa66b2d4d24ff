//! Numbers as text, for the messages of errors.

use vstd::prelude::*;
use vstd::string::StringExecFns;

verus! {

/// The ten decimal digits, in order of value.
pub open spec fn decimal_digits() -> Seq<char> {
    seq!['0', '1', '2', '3', '4', '5', '6', '7', '8', '9']
}

/// The decimal form of `n`, without leading zeros.
pub open spec fn decimal_text(n: nat) -> Seq<char>
    decreases n,
{
    if n < 10 {
        seq![decimal_digits()[n as int]]
    } else {
        decimal_text(n / 10).push(decimal_digits()[(n % 10) as int])
    }
}

/// The text of digits that were collected lowest first.
pub open spec fn digits_text(digits: Seq<u8>) -> Seq<char> {
    Seq::new(digits.len(), |k: int| decimal_digits()[digits[digits.len() - 1 - k] as int])
}

fn digit_str(d: u8) -> (s: &'static str)
    requires
        d < 10,
    ensures
        s@ == seq![decimal_digits()[d as int]],
{
    proof {
        reveal_strlit("0");
        reveal_strlit("1");
        reveal_strlit("2");
        reveal_strlit("3");
        reveal_strlit("4");
        reveal_strlit("5");
        reveal_strlit("6");
        reveal_strlit("7");
        reveal_strlit("8");
        reveal_strlit("9");
    }
    let s = match d {
        0 => "0",
        1 => "1",
        2 => "2",
        3 => "3",
        4 => "4",
        5 => "5",
        6 => "6",
        7 => "7",
        8 => "8",
        _ => "9",
    };
    assert(s@ =~= seq![decimal_digits()[d as int]]);
    s
}

/// The decimal form of `n`.
pub fn decimal(n: usize) -> (s: String)
    ensures
        s@ == decimal_text(n as nat),
{
    let mut digits: Vec<u8> = Vec::new();
    let mut rest: usize = n;
    assert(digits_text(digits@) =~= Seq::<char>::empty());
    while rest >= 10
        invariant
            decimal_text(n as nat) == decimal_text(rest as nat) + digits_text(digits@),
            forall|k: int| 0 <= k < digits@.len() ==> digits@[k] < 10,
        decreases rest,
    {
        let d = (rest % 10) as u8;
        proof {
            let grown = digits@.push(d);
            assert(digits_text(grown) =~= seq![decimal_digits()[d as int]] + digits_text(digits@));
            assert(decimal_text(rest as nat) == decimal_text((rest / 10) as nat).push(
                decimal_digits()[d as int],
            ));
            assert(decimal_text((rest / 10) as nat).push(decimal_digits()[d as int]) + digits_text(
                digits@,
            ) =~= decimal_text((rest / 10) as nat) + digits_text(grown));
        }
        digits.push(d);
        rest = rest / 10;
    }
    proof {
        let grown = digits@.push(rest as u8);
        assert(digits_text(grown) =~= seq![decimal_digits()[rest as int]] + digits_text(digits@));
    }
    digits.push(rest as u8);
    let mut s = String::new();
    let mut i: usize = digits.len();
    while i > 0
        invariant
            i <= digits@.len(),
            forall|k: int| 0 <= k < digits@.len() ==> digits@[k] < 10,
            s@ == digits_text(digits@).subrange(0, digits@.len() - i),
        decreases i,
    {
        i -= 1;
        s.append(digit_str(digits[i]));
        assert(s@ =~= digits_text(digits@).subrange(0, digits@.len() - i));
    }
    assert(digits_text(digits@).subrange(0, digits@.len() as int) =~= digits_text(digits@));
    s
}

} // verus!
