//! Selection vectors: one ciphertext per position, an encryption of one at
//! the target and encryptions of zero everywhere else.

use crate::client::Client;
use crate::error::PirError;
use crate::promise::{opened, opens_fresh, weighted_sum};
use crate::scheme::{ciphertext_shape, encode_scalar, encrypt, fresh_shape};
use fhe::bfv::{BfvParameters, Ciphertext};
use rand::rngs::ThreadRng;
use vstd::prelude::*;

verus! {

/// The plain vector behind a selection vector: one at `target`, zero
/// elsewhere.
pub open spec fn one_hot(length: nat, target: nat) -> Seq<u64> {
    Seq::new(
        length,
        |k: int|
            if k == target {
                1u64
            } else {
                0u64
            },
    )
}

/// `ciphertexts` is a selection vector of `length` positions for `target`
/// under the client's key: every position holds an encryption of what
/// `one_hot` holds there.
pub open spec fn selects(client: Client, ciphertexts: Seq<Ciphertext>, length: nat, target: nat) -> bool {
    &&& ciphertexts.len() == length
    &&& forall|k: int|
        0 <= k < length ==> client.seals(#[trigger] ciphertexts[k], one_hot(length, target)[k])
}

/// The weighted sum of `values` with the one-hot vector for `target` is the
/// value at `target`, once the sum has passed it.
pub proof fn lemma_one_hot_sum(length: nat, target: nat, values: Seq<u64>, count: nat)
    requires
        target < length,
        count <= length,
    ensures
        weighted_sum(one_hot(length, target), values, count) == if target < count {
            values[target as int] as int
        } else {
            0
        },
    decreases count,
{
    if count > 0 {
        lemma_one_hot_sum(length, target, values, (count - 1) as nat);
    }
}

/// Where decryption undoes encryption, the client reads out of a selection
/// vector one at the target and zero at every other position.
pub proof fn lemma_selection_opens(client: Client, ciphertexts: Seq<Ciphertext>, length: nat, target: nat)
    requires
        target < length,
        selects(client, ciphertexts, length, target),
        opens_fresh(client, 0),
        opens_fresh(client, 1),
    ensures
        opened(client, ciphertexts) == one_hot(length, target),
        forall|k: int|
            0 <= k < length ==> client.opens(#[trigger] ciphertexts[k]) == Some(
                if k == target {
                    1u64
                } else {
                    0u64
                },
            ),
{
    assert forall|k: int| 0 <= k < length implies client.opens(#[trigger] ciphertexts[k]) == Some(
        if k == target {
            1u64
        } else {
            0u64
        },
    ) by {
        assert(client.seals(ciphertexts[k], one_hot(length, target)[k]));
    }
    assert(opened(client, ciphertexts) =~= one_hot(length, target));
}

/// Every ciphertext is as encryption under `parameters` left it.
pub open spec fn all_fresh(ciphertexts: Seq<Ciphertext>, parameters: BfvParameters) -> bool {
    forall|k: int|
        0 <= k < ciphertexts.len() ==> ciphertext_shape(#[trigger] ciphertexts[k]) == fresh_shape(
            parameters,
        )
}

/// A sequence of ciphertexts that the client sends to the server. Its view
/// is that sequence.
pub struct SelectionVector {
    ciphertexts: Vec<Ciphertext>,
}

impl View for SelectionVector {
    type V = Seq<Ciphertext>;

    closed spec fn view(&self) -> Seq<Ciphertext> {
        self.ciphertexts@
    }
}

impl SelectionVector {
    /// All ciphertexts were encrypted under the same parameters.
    #[verifier::type_invariant]
    pub open spec fn wf(self) -> bool {
        all_fresh(self@, self.parameters())
    }

    /// The parameters that the ciphertexts were encrypted under.
    pub open spec fn parameters(self) -> BfvParameters {
        ciphertext_shape(self@[0]).parameters
    }

    /// The number of ciphertexts, which is what the client uploads.
    pub fn len(&self) -> (n: usize)
        ensures
            n == self@.len(),
    {
        self.ciphertexts.len()
    }

    pub(crate) fn ciphertexts(&self) -> (ciphertexts: &Vec<Ciphertext>)
        ensures
            ciphertexts@ == self@,
            self.wf(),
    {
        proof {
            use_type_invariant(self);
        }
        &self.ciphertexts
    }
}

/// Builds the selection vector of `length` positions for `target`. Every
/// position is encrypted on its own, with randomness drawn for it alone.
///
/// A target outside the vector is refused with `Index` before anything is
/// encrypted: the source of randomness is left as it was. Every target
/// inside it is served.
#[verifier::loop_isolation(false)]
pub fn build_selection(client: &Client, length: usize, target: usize, rng: &mut ThreadRng) -> (r:
    Result<SelectionVector, PirError>)
    ensures
        target >= length ==> *final(rng) == *old(rng),
        r is Ok <==> target < length,
        match r {
            Ok(selection) => {
                &&& selects(*client, selection@, length as nat, target as nat)
                &&& selection.wf()
                &&& selection.parameters() == client.parameters().bfv()
            },
            Err(e) => e == PirError::Index,
        },
{
    if target >= length {
        return Err(PirError::Index);
    }
    let parameters = client.scheme();
    let zero = encode_scalar(0, parameters.handle()).unwrap();
    let one = encode_scalar(1, parameters.handle()).unwrap();
    let mut ciphertexts: Vec<Ciphertext> = Vec::new();
    let mut k: usize = 0;
    while k < length
        invariant
            k <= length,
            target < length,
            client.wf(),
            ciphertexts@.len() == k,
            forall|j: int|
                0 <= j < k ==> client.seals(
                    #[trigger] ciphertexts@[j],
                    one_hot(length as nat, target as nat)[j],
                ),
            all_fresh(ciphertexts@, client.parameters().bfv()),
        decreases length - k,
    {
        let sealed = if k == target {
            encrypt(client.secret(), &one, rng)
        } else {
            encrypt(client.secret(), &zero, rng)
        };
        ciphertexts.push(sealed.unwrap());
        k += 1;
    }
    Ok(SelectionVector { ciphertexts })
}

} // verus!
