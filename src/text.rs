//! Decimal rendering of integers.
use vstd::prelude::*;
use vstd::string::StringExecFns;

verus! {

/// The character of a decimal digit.
pub open spec fn digit_char(d: nat) -> char {
    if d == 0 {
        '0'
    } else if d == 1 {
        '1'
    } else if d == 2 {
        '2'
    } else if d == 3 {
        '3'
    } else if d == 4 {
        '4'
    } else if d == 5 {
        '5'
    } else if d == 6 {
        '6'
    } else if d == 7 {
        '7'
    } else if d == 8 {
        '8'
    } else {
        '9'
    }
}

/// Decimal digits of `n`, most significant first, without leading zeros.
pub open spec fn nat_text(n: nat) -> Seq<char>
    decreases n,
{
    if n < 10 {
        seq![digit_char(n)]
    } else {
        nat_text(n / 10).push(digit_char(n % 10))
    }
}

/// Decimal text of a signed integer, with a leading `-` when negative.
pub open spec fn int_text(v: int) -> Seq<char> {
    if v < 0 {
        seq!['-'] + nat_text((-v) as nat)
    } else {
        nat_text(v as nat)
    }
}

proof fn lemma_nat_text_len(n: nat)
    ensures
        nat_text(n).len() >= 1,
        n >= 10 ==> nat_text(n).len() >= 2,
    decreases n,
{
    if n >= 10 {
        lemma_nat_text_len(n / 10);
    }
}

/// Distinct numbers have distinct decimal texts.
pub proof fn lemma_nat_text_injective(a: nat, b: nat)
    requires
        nat_text(a) == nat_text(b),
    ensures
        a == b,
    decreases a,
{
    lemma_nat_text_len(a);
    lemma_nat_text_len(b);
    if a < 10 && b < 10 {
        assert(nat_text(a)[0] == digit_char(a));
        assert(nat_text(b)[0] == digit_char(b));
    } else if a >= 10 && b >= 10 {
        let ta = nat_text(a);
        let tb = nat_text(b);
        assert(ta.last() == digit_char(a % 10));
        assert(tb.last() == digit_char(b % 10));
        assert(ta.drop_last() =~= nat_text(a / 10));
        assert(tb.drop_last() =~= nat_text(b / 10));
        lemma_nat_text_injective(a / 10, b / 10);
    }
}

fn digit_str(d: u64) -> (r: &'static str)
    requires
        d < 10,
    ensures
        r@ == seq![digit_char(d as nat)],
{
    if d == 0 {
        proof { reveal_strlit("0"); }
        "0"
    } else if d == 1 {
        proof { reveal_strlit("1"); }
        "1"
    } else if d == 2 {
        proof { reveal_strlit("2"); }
        "2"
    } else if d == 3 {
        proof { reveal_strlit("3"); }
        "3"
    } else if d == 4 {
        proof { reveal_strlit("4"); }
        "4"
    } else if d == 5 {
        proof { reveal_strlit("5"); }
        "5"
    } else if d == 6 {
        proof { reveal_strlit("6"); }
        "6"
    } else if d == 7 {
        proof { reveal_strlit("7"); }
        "7"
    } else if d == 8 {
        proof { reveal_strlit("8"); }
        "8"
    } else {
        proof { reveal_strlit("9"); }
        "9"
    }
}

/// Appends the decimal digits of `n` to `s`.
pub fn push_nat(s: &mut String, n: u64)
    ensures
        final(s)@ == old(s)@ + nat_text(n as nat),
    decreases n,
{
    let ghost s0 = s@;
    if n >= 10 {
        push_nat(s, n / 10);
    }
    s.append(digit_str(n % 10));
    assert(s@ =~= s0 + nat_text(n as nat));
}

/// Appends the decimal text of `v` to `s`.
pub fn push_int(s: &mut String, v: i32)
    ensures
        final(s)@ == old(s)@ + int_text(v as int),
{
    let ghost s0 = s@;
    if v < 0 {
        proof { reveal_strlit("-"); }
        s.append("-");
        push_nat(s, (-(v as i64)) as u64);
        assert(s@ =~= s0 + int_text(v as int));
    } else {
        push_nat(s, v as u64);
    }
}

} // verus!
