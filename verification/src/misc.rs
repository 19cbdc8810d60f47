//! Small helpers shared by the other modules.

use vstd::prelude::*;

verus! {

/// The byte with every bit set for `true` and every bit clear for `false`.
pub open spec fn allbits(b: bool) -> u8 {
    if b {
        0xff
    } else {
        0x00
    }
}

/// Turns a boolean into a byte mask without branching: the boolean's single
/// bit is subtracted from zero, which wraps to all ones for `true`.
pub fn bool_to_allbits(b: bool) -> (v: u8)
    ensures
        v == allbits(b),
{
    let bit: u8 = b as u8;
    0u8.wrapping_sub(bit)
}

/// `Rng::gen_range` of the crate rand, on the generator that
/// `rand::thread_rng` hands out, for the range from 0 up to but without
/// `r`. It returns some value of that range; which one, nothing says. On an
/// empty range it panics, so `r` must not be 0. The generator is seeded by
/// the system: where the system's source of entropy fails, it panics, and
/// nothing that a caller passes can prevent that.
#[verifier::external_body]
fn rand_below(r: u8) -> (v: u8)
    requires
        r > 0,
    ensures
        v < r,
{
    rand::Rng::gen_range(&mut rand::thread_rng(), 0..r)
}

/// A vector of `n` random bytes, each below `r`. Where `n` is not 0, `r`
/// must not be 0: there is no byte below 0.
///
/// The bytes come from the thread's random generator, which the system
/// seeds. Where `n` is not 0 and the system's source of entropy fails, the
/// generator panics.
pub fn rand_vec_u8(n: usize, r: u8) -> (vu8: Vec<u8>)
    requires
        n > 0 ==> r > 0,
    ensures
        vu8@.len() == n,
        forall|i: int| 0 <= i < n ==> #[trigger] vu8@[i] < r,
{
    let mut vu8: Vec<u8> = Vec::new();
    let mut i: usize = 0;
    while i < n
        invariant
            i <= n,
            n > 0 ==> r > 0,
            vu8@.len() == i,
            forall|j: int| 0 <= j < i ==> #[trigger] vu8@[j] < r,
        decreases n - i,
    {
        vu8.push(rand_below(r));
        i += 1;
    }
    vu8
}

} // verus!
