//! Numbers as decimal text.

use vstd::prelude::*;
use vstd::string::*;

verus! {

/// The character for the digit `d`.
pub open spec fn digit_char(d: nat) -> char {
    if d == 0 {
        '0'
    } else if d == 1 {
        '1'
    } else if d == 2 {
        '2'
    } else if d == 3 {
        '3'
    } else if d == 4 {
        '4'
    } else if d == 5 {
        '5'
    } else if d == 6 {
        '6'
    } else if d == 7 {
        '7'
    } else if d == 8 {
        '8'
    } else {
        '9'
    }
}

/// The decimal digits of `n`, the most significant first, without leading
/// zeros.
pub open spec fn spec_decimal(n: nat) -> Seq<char>
    decreases n,
{
    if n < 10 {
        seq![digit_char(n)]
    } else {
        spec_decimal(n / 10).push(digit_char(n % 10))
    }
}

/// The characters of the first `k` of `digits`, last digit first.
pub open spec fn reversed_text(digits: Seq<u8>, k: nat) -> Seq<char>
    decreases k,
{
    if k == 0 || k > digits.len() {
        Seq::empty()
    } else {
        seq![digit_char(digits[k - 1] as nat)] + reversed_text(digits, (k - 1) as nat)
    }
}

/// More digits at the end change nothing about the first ones.
proof fn lemma_reversed_text_push(digits: Seq<u8>, d: u8, k: nat)
    requires
        k <= digits.len(),
    ensures
        reversed_text(digits.push(d), k) == reversed_text(digits, k),
    decreases k,
{
    if k > 0 {
        lemma_reversed_text_push(digits, d, (k - 1) as nat);
    }
}

/// The text of one digit.
fn digit_str(d: u8) -> (r: &'static str)
    requires
        d < 10,
    ensures
        r@ == seq![digit_char(d as nat)],
{
    proof {
        reveal_strlit("0");
        reveal_strlit("1");
        reveal_strlit("2");
        reveal_strlit("3");
        reveal_strlit("4");
        reveal_strlit("5");
        reveal_strlit("6");
        reveal_strlit("7");
        reveal_strlit("8");
        reveal_strlit("9");
    }
    let r = if d == 0 {
        "0"
    } else if d == 1 {
        "1"
    } else if d == 2 {
        "2"
    } else if d == 3 {
        "3"
    } else if d == 4 {
        "4"
    } else if d == 5 {
        "5"
    } else if d == 6 {
        "6"
    } else if d == 7 {
        "7"
    } else if d == 8 {
        "8"
    } else {
        "9"
    };
    assert(r@ =~= seq![digit_char(d as nat)]);
    r
}

/// `n` as decimal text.
pub fn to_decimal(n: u64) -> (r: String)
    ensures
        r@ == spec_decimal(n as nat),
{
    let mut digits: Vec<u8> = Vec::new();
    let mut rest: u64 = n;
    proof {
        assert(spec_decimal(rest as nat) + reversed_text(digits@, 0) =~= spec_decimal(n as nat));
    }
    while rest >= 10
        invariant
            forall|i: int| 0 <= i < digits@.len() ==> digits@[i] < 10,
            spec_decimal(n as nat) == spec_decimal(rest as nat) + reversed_text(
                digits@,
                digits@.len(),
            ),
        decreases rest,
    {
        let d: u8 = (rest % 10) as u8;
        proof {
            lemma_reversed_text_push(digits@, d, digits@.len());
            let more = digits@.push(d);
            assert(reversed_text(more, more.len()) == seq![digit_char(d as nat)] + reversed_text(
                more,
                digits@.len(),
            ));
            assert(spec_decimal((rest / 10) as nat).push(digit_char(d as nat)) + reversed_text(
                digits@,
                digits@.len(),
            ) =~= spec_decimal((rest / 10) as nat) + reversed_text(more, more.len()));
        }
        digits.push(d);
        rest = rest / 10;
    }
    let d: u8 = rest as u8;
    proof {
        lemma_reversed_text_push(digits@, d, digits@.len());
        let more = digits@.push(d);
        assert(reversed_text(more, more.len()) == seq![digit_char(d as nat)] + reversed_text(
            more,
            digits@.len(),
        ));
    }
    digits.push(d);
    let mut text = String::from_str("");
    let mut k: usize = digits.len();
    proof {
        reveal_strlit("");
        assert(text@ + reversed_text(digits@, k as nat) =~= spec_decimal(n as nat));
    }
    while k > 0
        invariant
            k <= digits@.len(),
            forall|i: int| 0 <= i < digits@.len() ==> digits@[i] < 10,
            text@ + reversed_text(digits@, k as nat) == spec_decimal(n as nat),
        decreases k,
    {
        let ghost before = text@;
        text.append(digit_str(digits[k - 1]));
        proof {
            assert(before + (seq![digit_char(digits@[k - 1] as nat)] + reversed_text(
                digits@,
                (k - 1) as nat,
            )) =~= text@ + reversed_text(digits@, (k - 1) as nat));
        }
        k = k - 1;
    }
    proof {
        assert(text@ + reversed_text(digits@, 0) =~= text@);
    }
    text
}

} // verus!
