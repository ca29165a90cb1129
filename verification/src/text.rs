//! Decimal rendering of numbers for the texts that the kernel produces.

use vstd::prelude::*;
use vstd::string::StringExecFns;

verus! {

/// The character that stands for the digit `d`.
pub open spec fn digit_char(d: nat) -> char {
    if d == 0 {
        '0'
    } else if d == 1 {
        '1'
    } else if d == 2 {
        '2'
    } else if d == 3 {
        '3'
    } else if d == 4 {
        '4'
    } else if d == 5 {
        '5'
    } else if d == 6 {
        '6'
    } else if d == 7 {
        '7'
    } else if d == 8 {
        '8'
    } else {
        '9'
    }
}

/// The decimal numeral of `n`: no sign, no leading zero but for zero itself.
pub open spec fn decimal(n: nat) -> Seq<char>
    decreases n,
{
    if n < 10 {
        seq![digit_char(n)]
    } else {
        decimal(n / 10).push(digit_char(n % 10))
    }
}

fn digit_text(d: u32) -> (s: &'static str)
    requires
        d < 10,
    ensures
        s@ == seq![digit_char(d as nat)],
{
    proof {
        reveal_strlit("0");
        reveal_strlit("1");
        reveal_strlit("2");
        reveal_strlit("3");
        reveal_strlit("4");
        reveal_strlit("5");
        reveal_strlit("6");
        reveal_strlit("7");
        reveal_strlit("8");
        reveal_strlit("9");
    }
    let s = if d == 0 {
        "0"
    } else if d == 1 {
        "1"
    } else if d == 2 {
        "2"
    } else if d == 3 {
        "3"
    } else if d == 4 {
        "4"
    } else if d == 5 {
        "5"
    } else if d == 6 {
        "6"
    } else if d == 7 {
        "7"
    } else if d == 8 {
        "8"
    } else {
        "9"
    };
    assert(s@ =~= seq![digit_char(d as nat)]);
    s
}

/// Renders `v` in decimal.
pub fn decimal_string(v: u32) -> (s: String)
    ensures
        s@ == decimal(v as nat),
{
    let mut s = String::from_str(digit_text(v % 10));
    let mut rest: u32 = v / 10;
    while rest > 0
        invariant
            rest > 0 ==> decimal(v as nat) == decimal(rest as nat) + s@,
            rest == 0 ==> decimal(v as nat) == s@,
        decreases rest,
    {
        let head = String::from_str(digit_text(rest % 10));
        let ghost tail = s@;
        s = head.concat(s.as_str());
        proof {
            let d = seq![digit_char((rest % 10) as nat)];
            assert(s@ == d + tail);
            if rest < 10 {
                assert(decimal(rest as nat) == d);
            } else {
                assert(decimal(rest as nat) == decimal((rest / 10) as nat).push(
                    digit_char((rest % 10) as nat),
                ));
                assert(decimal((rest / 10) as nat).push(digit_char((rest % 10) as nat)) + tail
                    =~= decimal((rest / 10) as nat) + (d + tail));
            }
        }
        rest = rest / 10;
    }
    s
}

} // verus!
