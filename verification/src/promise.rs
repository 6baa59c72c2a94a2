//! What the protocols expect of the encryption scheme, stated on the values
//! that one retrieval handles.
//!
//! The scheme keeps these promises as long as the noise in its ciphertexts
//! stays within what the parameters leave room for; past that, decryption
//! silently yields something else. The library cannot see the noise, so none
//! of this is assumed anywhere: each predicate is a hypothesis that the laws
//! about retrieval name where they depend on it.

use crate::client::Client;
use crate::scheme::{ciphertext_product, ciphertext_sum, scalar_product};
use fhe::bfv::{Ciphertext, Plaintext};
use vstd::prelude::*;

verus! {

/// The sum of `weights[k] * values[k]` over the first `count` positions.
pub open spec fn weighted_sum(weights: Seq<u64>, values: Seq<u64>, count: nat) -> int
    decreases count,
{
    if count == 0 {
        0
    } else {
        weighted_sum(weights, values, (count - 1) as nat) + weights[count - 1] * values[count - 1]
    }
}

/// What the client reads out of each ciphertext, with zero where it reads
/// nothing.
pub open spec fn opened(client: Client, ciphertexts: Seq<Ciphertext>) -> Seq<u64> {
    Seq::new(
        ciphertexts.len(),
        |k: int|
            match client.opens(ciphertexts[k]) {
                Some(value) => value,
                None => 0u64,
            },
    )
}

/// `number` reduced by the plaintext modulus of the client's parameters.
pub open spec fn reduced(client: Client, number: int) -> int {
    number % (client.parameters().modulus() as int)
}

/// Decryption undoes encryption: the client reads `value` out of every
/// encryption of `value` under its key.
pub open spec fn opens_fresh(client: Client, value: u64) -> bool {
    forall|ciphertext: Ciphertext| #[trigger]
        client.seals(ciphertext, value) ==> client.opens(ciphertext) == Some(value)
}

/// The scalar dot product of `ciphertexts` with the encodings `plaintexts`
/// of `values` succeeds, and the client reads out of it the dot product of
/// what the ciphertexts hold with `values`, reduced by the plaintext
/// modulus.
pub open spec fn opens_scalar_product(
    client: Client,
    ciphertexts: Seq<Ciphertext>,
    values: Seq<u64>,
    plaintexts: Seq<Plaintext>,
) -> bool {
    scalar_product(ciphertexts, plaintexts) matches Ok(ciphertext) && client.opens(ciphertext)
        matches Some(value) && value == reduced(
        client,
        weighted_sum(opened(client, ciphertexts), values, ciphertexts.len()),
    )
}

/// The client reads out of the product of two ciphertexts the product of
/// what they hold, reduced by the plaintext modulus.
pub open spec fn opens_product(client: Client, left: Ciphertext, right: Ciphertext) -> bool {
    client.opens(left) matches Some(a) && client.opens(right) matches Some(b) && client.opens(
        ciphertext_product(left, right),
    ) matches Some(value) && value == reduced(client, a * b)
}

/// The client reads out of the sum of two ciphertexts the sum of what they
/// hold, reduced by the plaintext modulus.
pub open spec fn opens_sum(client: Client, total: Ciphertext, term: Ciphertext) -> bool {
    client.opens(total) matches Some(a) && client.opens(term) matches Some(b) && client.opens(
        ciphertext_sum(total, term),
    ) matches Some(value) && value == reduced(client, a + b)
}

} // verus!
