use vstd::prelude::*;

verus! {

/// The decimal digit `d`.
pub open spec fn digit_char(d: nat) -> char {
    (48 + d) as char
}

/// The decimal digits of `n`, most significant first, without leading zeros.
pub open spec fn decimal_digits(n: nat) -> Seq<char>
    decreases n,
{
    if n < 10 {
        seq![digit_char(n)]
    } else {
        decimal_digits(n / 10).push(digit_char(n % 10))
    }
}

/// The decimal text of `v`, with a `-` in front when it is negative.
pub open spec fn decimal(v: int) -> Seq<char> {
    if v < 0 {
        seq!['-'] + decimal_digits((-v) as nat)
    } else {
        decimal_digits(v as nat)
    }
}

/// Calls `ToString::to_string` on an `i64`. The contract claims what std's
/// `Display` for integers writes: the decimal digits, with a leading `-` for a
/// negative value.
#[verifier::external_body]
pub(crate) fn decimal_text(v: i64) -> (s: String)
    ensures
        s@ == decimal(v as int),
{
    v.to_string()
}

} // verus!
