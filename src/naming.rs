//! Random names for working directories.
use vstd::prelude::*;
use rand::Rng;
use crate::text::{chars_of, string_of};

verus! {

/// The characters that random names are drawn from.
pub open spec fn name_alphabet() -> Seq<char> {
    "abcdefghijklmnopqrstuvwxyzABCDEFGHIJKLMNOPQRSTUVWXYZ0123456789"@
}

/// Relies on rand's `thread_rng` and `Rng::gen_range` over `0..n`: a value
/// below `n`. The range must not be empty, as `gen_range` panics on one.
#[verifier::external_body]
fn random_below(n: usize) -> (r: usize)
    requires
        n > 0,
    ensures
        r < n,
{
    rand::thread_rng().gen_range(0..n)
}

/// The name whose characters are the alphabet's characters at the given
/// positions.
pub fn name_from_indices(indices: &Vec<usize>) -> (r: String)
    requires
        forall|i: int| 0 <= i < indices@.len() ==> indices@[i] < 62,
    ensures
        r@ == indices@.map_values(|k: usize| name_alphabet()[k as int]),
{
    let alphabet = chars_of("abcdefghijklmnopqrstuvwxyzABCDEFGHIJKLMNOPQRSTUVWXYZ0123456789");
    proof {
        reveal_strlit("abcdefghijklmnopqrstuvwxyzABCDEFGHIJKLMNOPQRSTUVWXYZ0123456789");
    }
    let mut out: Vec<char> = Vec::new();
    let mut i: usize = 0;
    while i < indices.len()
        invariant
            i <= indices@.len(),
            alphabet@ == name_alphabet(),
            alphabet@.len() == 62,
            forall|j: int| 0 <= j < indices@.len() ==> indices@[j] < 62,
            out@ == indices@.take(i as int).map_values(|k: usize| name_alphabet()[k as int]),
        decreases indices@.len() - i,
    {
        out.push(alphabet[indices[i]]);
        i = i + 1;
        assert(out@ =~= indices@.take(i as int).map_values(|k: usize| name_alphabet()[k as int]));
    }
    assert(indices@.take(i as int) =~= indices@);
    string_of(&out)
}

/// A random name of `len` characters drawn from the alphabet.
pub fn random_name(len: usize) -> (r: String)
    ensures
        r@.len() == len,
        forall|i: int| 0 <= i < r@.len() ==> name_alphabet().contains(#[trigger] r@[i]),
{
    let mut indices: Vec<usize> = Vec::new();
    let mut i: usize = 0;
    while i < len
        invariant
            i <= len,
            indices@.len() == i,
            forall|j: int| 0 <= j < indices@.len() ==> indices@[j] < 62,
        decreases len - i,
    {
        let k = random_below(62);
        indices.push(k);
        i = i + 1;
    }
    let r = name_from_indices(&indices);
    assert forall|i: int| 0 <= i < r@.len() implies name_alphabet().contains(#[trigger] r@[i]) by {
        reveal_strlit("abcdefghijklmnopqrstuvwxyzABCDEFGHIJKLMNOPQRSTUVWXYZ0123456789");
        assert(name_alphabet()[indices@[i] as int] == r@[i]);
    }
    r
}

} // verus!
