use vstd::prelude::*;
use crate::foreign::{spec_to_lowercase, to_lowercase};

verus! {

/// A hash algorithm that the update server may name.
#[derive(Clone, Copy, Debug, PartialEq, Eq, Structural)]
pub enum HashAlgorithm {
    Sha256,
    Sha384,
    Sha512,
    Sha512_256,
}

/// The algorithm that a lower-case name stands for.
pub open spec fn algorithm_named(lower: Seq<char>) -> Option<HashAlgorithm> {
    if lower == "sha256"@ {
        Some(HashAlgorithm::Sha256)
    } else if lower == "sha384"@ {
        Some(HashAlgorithm::Sha384)
    } else if lower == "sha512"@ {
        Some(HashAlgorithm::Sha512)
    } else if lower == "sha512_256"@ {
        Some(HashAlgorithm::Sha512_256)
    } else {
        None
    }
}

/// Converts the name of an algorithm, in any case, to the algorithm.
pub fn convert_hash_algorithm(name: &str) -> (r: Option<HashAlgorithm>)
    ensures
        r == algorithm_named(spec_to_lowercase(name@)),
{
    let lower = to_lowercase(name);
    if lower == "sha256".to_owned() {
        Some(HashAlgorithm::Sha256)
    } else if lower == "sha384".to_owned() {
        Some(HashAlgorithm::Sha384)
    } else if lower == "sha512".to_owned() {
        Some(HashAlgorithm::Sha512)
    } else if lower == "sha512_256".to_owned() {
        Some(HashAlgorithm::Sha512_256)
    } else {
        None
    }
}

} // verus!
