//! Conversion between IPv4 addresses and human-memorable dotted word
//! identifiers ("EPID3"): a three-word form drawn from a fixed dictionary.
//!
//! The pivot between the two textual forms is a single ordinal in
//! `[0, 256^4)`.  The address side is four components in base 256; the word
//! side is three components in a base derived so that three components cover
//! the whole address space.

use vstd::prelude::*;

pub mod radix;
pub mod text;
pub mod dict;
pub mod ipv4;
pub mod wordlist;

verus! {

use crate::dict::Dictionary;
use crate::text::spec_join;
use crate::ipv4::format_epid3;
use crate::ipv4::spec_format_epid3;
use crate::radix::to_ints;

/// Relies on rand's `thread_rng` with a `Uniform` distribution over
/// `[0, bound)`: every one of the `count` samples lies below `bound`.
#[verifier::external_body]
fn sample_indices(bound: usize, count: usize) -> (r: Vec<usize>)
    requires
        bound >= 1,
    ensures
        r@.len() == count,
        forall|i: int| 0 <= i < count ==> #[trigger] r@[i] < bound,
{
    let rng = rand::thread_rng();
    let dist = rand::distributions::Uniform::new(0, bound);
    rand::Rng::sample_iter(rng, dist).take(count).collect()
}

/// Builds an identifier of `num_words` words drawn uniformly and
/// independently from the dictionary, joined by dots.  Not a codec call:
/// such identifiers need not round-trip.
pub fn generate_epid_size(num_words: usize, dict: &Dictionary) -> (r: String)
    requires
        dict.valid(),
    ensures
        exists|idxs: Seq<int>|
            idxs.len() == num_words && (forall|i: int|
                0 <= i < num_words ==> 0 <= #[trigger] idxs[i] < dict@.len()) && r@ == spec_join(
                idxs.map_values(|v: int| dict@[v]),
                '.',
            ),
{
    let samples = sample_indices(dict.len(), num_words);
    let mut comps: Vec<u32> = Vec::new();
    let mut i: usize = 0;
    while i < samples.len()
        invariant
            dict.valid(),
            samples@.len() == num_words,
            forall|j: int| 0 <= j < num_words ==> #[trigger] samples@[j] < dict@.len(),
            0 <= i <= num_words,
            comps@.len() == i,
            forall|j: int| 0 <= j < i ==> #[trigger] comps@[j] == samples@[j],
        decreases samples@.len() - i,
    {
        comps.push(samples[i] as u32);
        i = i + 1;
    }
    let r = format_epid3(comps.as_slice(), dict);
    proof {
        let idxs = to_ints(comps@);
        assert(r@ == spec_format_epid3(idxs, dict@));
        assert(idxs.len() == num_words && (forall|j: int|
            0 <= j < num_words ==> 0 <= #[trigger] idxs[j] < dict@.len()) && r@ == spec_join(
            idxs.map_values(|v: int| dict@[v]),
            '.',
        ));
    }
    r
}

/// A random three-word identifier.
pub fn generate_epid3(dict: &Dictionary) -> (r: String)
    requires
        dict.valid(),
    ensures
        exists|idxs: Seq<int>|
            idxs.len() == 3 && (forall|i: int|
                0 <= i < 3 ==> 0 <= #[trigger] idxs[i] < dict@.len()) && r@ == spec_join(
                idxs.map_values(|v: int| dict@[v]),
                '.',
            ),
{
    generate_epid_size(3, dict)
}

/// A random four-word identifier.
pub fn generate_epid4(dict: &Dictionary) -> (r: String)
    requires
        dict.valid(),
    ensures
        exists|idxs: Seq<int>|
            idxs.len() == 4 && (forall|i: int|
                0 <= i < 4 ==> 0 <= #[trigger] idxs[i] < dict@.len()) && r@ == spec_join(
                idxs.map_values(|v: int| dict@[v]),
                '.',
            ),
{
    generate_epid_size(4, dict)
}

/// A random six-word identifier.
pub fn generate_epid6(dict: &Dictionary) -> (r: String)
    requires
        dict.valid(),
    ensures
        exists|idxs: Seq<int>|
            idxs.len() == 6 && (forall|i: int|
                0 <= i < 6 ==> 0 <= #[trigger] idxs[i] < dict@.len()) && r@ == spec_join(
                idxs.map_values(|v: int| dict@[v]),
                '.',
            ),
{
    generate_epid_size(6, dict)
}

} // verus!
