//! Sample-buffer interleaving: the last step of the render loop, merging
//! the two rendered mono buffers into one stereo output buffer.

use vstd::prelude::*;

verus! {

/// Interleave two equal-length buffers: the output alternates one sample
/// from `left` and one from `right`, starting with `left`.
pub fn interleave<T: Copy>(left: &Vec<T>, right: &Vec<T>) -> (out: Vec<T>)
    requires
        left@.len() == right@.len(),
    ensures
        out@.len() == 2 * left@.len(),
        forall|i: int|
            0 <= i < left@.len() ==> #[trigger] out@[2 * i] == left@[i] && out@[2 * i + 1]
                == right@[i],
{
    let n = left.len();
    let mut out: Vec<T> = Vec::new();
    let mut i: usize = 0;
    while i < n
        invariant
            i <= n,
            n == left@.len(),
            n == right@.len(),
            out@.len() == 2 * i,
            forall|j: int|
                0 <= j < i ==> #[trigger] out@[2 * j] == left@[j] && out@[2 * j + 1] == right@[j],
        decreases n - i,
    {
        let ghost old_out = out@;
        out.push(left[i]);
        out.push(right[i]);
        proof {
            assert forall|j: int| 0 <= j < i + 1 implies #[trigger] out@[2 * j] == left@[j]
                && out@[2 * j + 1] == right@[j] by {
                if j < i {
                    assert(out@[2 * j] == old_out[2 * j]);
                    assert(out@[2 * j + 1] == old_out[2 * j + 1]);
                } else {
                    assert(out@[2 * j] == left@[i as int]);
                    assert(out@[2 * j + 1] == right@[i as int]);
                }
            }
        }
        i = i + 1;
    }
    out
}

} // verus!
