//! Decimal rendering of the integer values that appear in statements: the
//! temp identifier counter (`u64`) and signed statement values (`i64`).

use vstd::prelude::*;
use vstd::string::StrSliceExecFns;
use vstd::string::StringExecFns;
use vstd::arithmetic::div_mod::lemma_fundamental_div_mod;

verus! {

/// The decimal digit character for a value in `0 ..= 9`.
pub open spec fn dec_digit(d: int) -> char {
    if d == 0 {
        '0'
    } else if d == 1 {
        '1'
    } else if d == 2 {
        '2'
    } else if d == 3 {
        '3'
    } else if d == 4 {
        '4'
    } else if d == 5 {
        '5'
    } else if d == 6 {
        '6'
    } else if d == 7 {
        '7'
    } else if d == 8 {
        '8'
    } else {
        '9'
    }
}

/// The usual decimal numeral of a natural number, most significant digit
/// first, with no leading zeros (a lone `0` for zero).
pub open spec fn dec_nat(n: nat) -> Seq<char>
    decreases n,
{
    if n < 10 {
        seq![dec_digit(n as int)]
    } else {
        dec_nat(n / 10) + seq![dec_digit((n % 10) as int)]
    }
}

/// The decimal numeral of a `u64`, as minted temp identifiers render it.
pub open spec fn dec_u64(n: u64) -> Seq<char> {
    dec_nat(n as nat)
}

/// The temp identifier minted at a given counter value: its decimal
/// numeral. Stated over `int` so that statement specs can index counter
/// values without overflow side conditions.
pub open spec fn tempid_numeral(c: int) -> Seq<char> {
    dec_nat(c as nat)
}

/// The decimal numeral of an `i64`, with a leading minus sign if negative.
pub open spec fn dec_i64(n: i64) -> Seq<char> {
    if n < 0 {
        seq!['-'] + dec_nat((-(n as int)) as nat)
    } else {
        dec_nat(n as nat)
    }
}

proof fn lemma_dec_nat_len(n: nat)
    ensures
        dec_nat(n).len() >= 1,
    decreases n,
{
    if n >= 10 {
        lemma_dec_nat_len(n / 10);
    }
}

proof fn lemma_dec_nat_injective_rec(a: nat, b: nat)
    requires
        dec_nat(a) == dec_nat(b),
    ensures
        a == b,
    decreases a,
{
    if a < 10 && b < 10 {
        assert(dec_nat(a)[0] == dec_digit(a as int));
        assert(dec_nat(b)[0] == dec_digit(b as int));
    } else if a < 10 && b >= 10 {
        lemma_dec_nat_len(b / 10);
        assert(dec_nat(b).len() >= 2);
    } else if a >= 10 && b < 10 {
        lemma_dec_nat_len(a / 10);
        assert(dec_nat(a).len() >= 2);
    } else {
        lemma_dec_nat_len(a / 10);
        lemma_dec_nat_len(b / 10);
        assert(dec_nat(a).last() == dec_digit((a % 10) as int));
        assert(dec_nat(b).last() == dec_digit((b % 10) as int));
        assert(a % 10 == b % 10);
        assert(dec_nat(a).drop_last() =~= dec_nat(a / 10));
        assert(dec_nat(b).drop_last() =~= dec_nat(b / 10));
        lemma_dec_nat_injective_rec(a / 10, b / 10);
        lemma_fundamental_div_mod(a as int, 10);
        lemma_fundamental_div_mod(b as int, 10);
    }
}

/// Distinct counter values render to distinct decimal numerals. Since every
/// mint of a temp identifier strictly increases the counter, no two minted
/// identifiers in a run are ever equal.
pub proof fn lemma_dec_u64_injective(a: u64, b: u64)
    requires
        a != b,
    ensures
        dec_u64(a) != dec_u64(b),
{
    if dec_nat(a as nat) == dec_nat(b as nat) {
        lemma_dec_nat_injective_rec(a as nat, b as nat);
    }
}

fn digit_str(d: u64) -> (r: &'static str)
    requires
        d < 10,
    ensures
        r@ == seq![dec_digit(d as int)],
{
    if d == 0 {
        proof {
            reveal_strlit("0");
            assert("0"@ =~= seq![dec_digit(0)]);
        }
        "0"
    } else if d == 1 {
        proof {
            reveal_strlit("1");
            assert("1"@ =~= seq![dec_digit(1)]);
        }
        "1"
    } else if d == 2 {
        proof {
            reveal_strlit("2");
            assert("2"@ =~= seq![dec_digit(2)]);
        }
        "2"
    } else if d == 3 {
        proof {
            reveal_strlit("3");
            assert("3"@ =~= seq![dec_digit(3)]);
        }
        "3"
    } else if d == 4 {
        proof {
            reveal_strlit("4");
            assert("4"@ =~= seq![dec_digit(4)]);
        }
        "4"
    } else if d == 5 {
        proof {
            reveal_strlit("5");
            assert("5"@ =~= seq![dec_digit(5)]);
        }
        "5"
    } else if d == 6 {
        proof {
            reveal_strlit("6");
            assert("6"@ =~= seq![dec_digit(6)]);
        }
        "6"
    } else if d == 7 {
        proof {
            reveal_strlit("7");
            assert("7"@ =~= seq![dec_digit(7)]);
        }
        "7"
    } else if d == 8 {
        proof {
            reveal_strlit("8");
            assert("8"@ =~= seq![dec_digit(8)]);
        }
        "8"
    } else {
        proof {
            reveal_strlit("9");
            assert("9"@ =~= seq![dec_digit(9)]);
        }
        "9"
    }
}

/// Renders a `u64` as its decimal numeral.
pub fn u64_to_dec_string(n: u64) -> (r: String)
    ensures
        r@ == dec_u64(n),
    decreases n,
{
    if n < 10 {
        String::from_str(digit_str(n))
    } else {
        let mut s = u64_to_dec_string(n / 10);
        s.append(digit_str(n % 10));
        proof {
            assert(s@ =~= dec_nat(n as nat));
        }
        s
    }
}

/// Renders an `i64` as its decimal numeral, minus sign included.
pub fn i64_to_dec_string(n: i64) -> (r: String)
    ensures
        r@ == dec_i64(n),
{
    if n >= 0 {
        let r = u64_to_dec_string(n as u64);
        proof {
            assert(n as u64 as nat == n as nat);
        }
        r
    } else {
        let mag: u64 = (-(n as i128)) as u64;
        let mut s = String::from_str("-");
        let digits = u64_to_dec_string(mag);
        s.append(digits.as_str());
        proof {
            reveal_strlit("-");
            assert("-"@ =~= seq!['-']);
            assert(mag as nat == (-(n as int)) as nat);
            assert(s@ =~= dec_i64(n));
        }
        s
    }
}

} // verus!
