//! Sum of 16-bit samples.
use vstd::prelude::*;

verus! {

pub open spec fn sum_u16(s: Seq<u16>) -> nat
    decreases s.len(),
{
    if s.len() == 0 {
        0
    } else {
        sum_u16(s.drop_last()) + s.last() as nat
    }
}

proof fn lemma_prefix_sum_le(s: Seq<u16>, i: int)
    requires
        0 <= i <= s.len(),
    ensures
        sum_u16(s.take(i)) <= sum_u16(s),
    decreases s.len(),
{
    if i < s.len() {
        lemma_prefix_sum_le(s.drop_last(), i);
        assert(s.drop_last().take(i) =~= s.take(i));
    } else {
        assert(s.take(i) =~= s);
    }
}

/// The sum of all elements, which must fit in 64 bits.
pub fn sum_uint16_array(array: &[u16]) -> (r: u64)
    requires
        sum_u16(array@) <= u64::MAX,
    ensures
        r == sum_u16(array@),
{
    let mut acc: u64 = 0;
    let mut i: usize = 0;
    while i < array.len()
        invariant
            i <= array@.len(),
            acc == sum_u16(array@.take(i as int)),
            sum_u16(array@) <= u64::MAX,
        decreases array@.len() - i,
    {
        proof {
            let t = array@.take(i as int + 1);
            assert(t.drop_last() =~= array@.take(i as int));
            lemma_prefix_sum_le(array@, i as int + 1);
        }
        acc = acc + array[i] as u64;
        i += 1;
    }
    assert(array@.take(i as int) =~= array@);
    acc
}

} // verus!
