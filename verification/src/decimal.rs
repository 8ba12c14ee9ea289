use vstd::prelude::*;

verus! {

/// The character for one decimal digit value.
pub open spec fn dec_digit(d: nat) -> char {
    "0123456789"@[d as int]
}

/// The decimal form of a non-negative number, most significant digit first.
pub open spec fn dec_digits(n: nat) -> Seq<char>
    decreases n,
{
    if n < 10 {
        seq![dec_digit(n)]
    } else {
        dec_digits(n / 10).push(dec_digit(n % 10))
    }
}

/// The decimal form of a number, with a leading minus sign when negative.
pub open spec fn dec_int(n: int) -> Seq<char> {
    if n < 0 {
        seq!['-'] + dec_digits((-n) as nat)
    } else {
        dec_digits(n as nat)
    }
}

/// Formats a number in decimal.
pub fn u64_to_dec(n: u64) -> (s: String)
    ensures
        s@ == dec_digits(n as nat),
    decreases n,
{
    let digits: &str = "0123456789";
    proof {
        reveal_strlit("0123456789");
    }
    assert(digits@.len() == 10);
    if n < 10 {
        let d: &str = digits.substring_char(n as usize, n as usize + 1);
        assert(d@ =~= seq![dec_digit(n as nat)]);
        d.to_owned()
    } else {
        let mut s: String = u64_to_dec(n / 10);
        let r: usize = (n % 10) as usize;
        let d: &str = digits.substring_char(r, r + 1);
        assert(d@ =~= seq![dec_digit((n % 10) as nat)]);
        s.append(d);
        assert(s@ =~= dec_digits(n as nat));
        s
    }
}

/// Formats a signed number in decimal.
pub fn i32_to_dec(v: i32) -> (s: String)
    ensures
        s@ == dec_int(v as int),
{
    if v < 0 {
        let m: u64 = (-(v as i64)) as u64;
        assert(m as nat == (-(v as int)) as nat);
        let mut s: String = "-".to_owned();
        proof {
            reveal_strlit("-");
        }
        assert(s@ =~= seq!['-']);
        let rest: String = u64_to_dec(m);
        s.append(rest.as_str());
        assert(s@ =~= dec_int(v as int));
        s
    } else {
        u64_to_dec(v as u64)
    }
}

} // verus!
