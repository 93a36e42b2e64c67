use vstd::prelude::*;

verus! {

/// Whether `c` is a decimal digit.
pub open spec fn is_digit(c: char) -> bool {
    '0' <= c <= '9'
}

/// The number written with the decimal digits of `s`, other characters
/// skipped; zero when `s` holds no digit.
pub open spec fn shown_number(s: Seq<char>) -> int
    decreases s.len(),
{
    if s.len() == 0 {
        0
    } else if is_digit(s.last()) {
        shown_number(s.drop_last()) * 10 + (s.last() as int - '0' as int)
    } else {
        shown_number(s.drop_last())
    }
}

} // verus!
