use vstd::prelude::*;

verus! {

/// Reads an integer the API uses as a boolean: `0` is `false`, any other value
/// `true`. Some fields are a strict `0`/`1` flag, others are "`0` or
/// non-`0`"; treating everything non-zero as `true` covers both.
pub fn parse_int_bool(value: u32) -> (r: bool)
    ensures
        r == (value != 0),
{
    value != 0
}

} // verus!
