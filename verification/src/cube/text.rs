use vstd::prelude::*;

verus! {

/// The texts of `parts`, one after another.
pub open spec fn spec_concat(parts: Seq<Seq<char>>) -> Seq<char>
    decreases parts.len(),
{
    if parts.len() == 0 {
        Seq::empty()
    } else {
        spec_concat(parts.drop_last()) + parts.last()
    }
}

/// Joining one more part onto the first `i` parts.
pub proof fn lemma_concat_step(parts: Seq<Seq<char>>, i: int)
    requires
        0 <= i < parts.len(),
    ensures
        spec_concat(parts.take(i + 1)) == spec_concat(parts.take(i)) + parts[i],
{
    assert(parts.take(i + 1).drop_last() =~= parts.take(i));
}

/// The decimal digit of a number below 4.
pub open spec fn spec_digit(v: u8) -> Seq<char> {
    if v == 0 { "0"@ } else if v == 1 { "1"@ } else if v == 2 { "2"@ } else { "3"@ }
}

/// The decimal digit of a number below 4.
pub fn digit(v: u8) -> (r: &'static str)
    requires
        v < 4,
    ensures
        r@ == spec_digit(v),
{
    if v == 0 { "0" } else if v == 1 { "1" } else if v == 2 { "2" } else { "3" }
}

} // verus!
