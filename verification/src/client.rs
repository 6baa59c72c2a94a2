//! The parameters that client and server share, the client's key, and what
//! the client reads out of the server's reply.

use crate::error::PirError;
use crate::scheme::{
    accepted, build_parameters, ciphertext_moduli, ciphertext_shape, decode, decoded, decrypt,
    decrypted, encoded, encryptions, error_variance, generate_key, key_parameters,
    plaintext_modulus, plaintext_modulus_of, polynomial_degree, share_parameters,
};
use fhe::bfv::{BfvParameters, Ciphertext, SecretKey};
use rand::rngs::ThreadRng;
use std::sync::Arc;
use vstd::prelude::*;

verus! {

/// The largest polynomial degree that parameters are built for.
pub const MAX_DEGREE: usize = 65536;

/// Parameters of the encryption scheme. They are built once and never
/// change; client and server hold handles to the same parameters.
pub struct SchemeParameters {
    handle: Arc<BfvParameters>,
}

impl SchemeParameters {
    /// Keys can be generated under these parameters, and zero and one are
    /// scalars below the plaintext modulus.
    #[verifier::type_invariant]
    pub open spec fn wf(self) -> bool {
        &&& 1 <= error_variance(self.bfv()) <= 16
        &&& self.modulus() >= 2
    }

    /// The parameters as the scheme knows them.
    pub closed spec fn bfv(self) -> BfvParameters {
        *self.handle
    }

    /// The modulus that plaintext scalars are reduced by.
    pub open spec fn modulus(self) -> u64 {
        plaintext_modulus(self.bfv())
    }

    /// The degree of the polynomials that plaintexts and ciphertexts are.
    pub open spec fn degree(self) -> usize {
        polynomial_degree(self.bfv())
    }

    /// The moduli that ciphertexts are reduced by.
    pub open spec fn moduli(self) -> Seq<u64> {
        ciphertext_moduli(self.bfv())
    }

    /// Whether parameters are built from these three: the degree is at most
    /// `MAX_DEGREE`, the plaintext modulus is below every ciphertext
    /// modulus, and the scheme accepts them.
    pub open spec fn buildable(degree: usize, moduli: Seq<u64>, modulus: u64) -> bool {
        &&& degree <= MAX_DEGREE
        &&& forall|i: int| 0 <= i < moduli.len() ==> modulus < #[trigger] moduli[i]
        &&& accepted(degree, moduli, modulus)
    }

    /// Builds parameters from the polynomial degree, the ciphertext moduli
    /// and the plaintext modulus. A degree beyond `MAX_DEGREE`, and a
    /// plaintext modulus that is not below every ciphertext modulus, are
    /// refused here; the scheme decides on the rest. What is built holds the
    /// three as they were given.
    pub fn new(degree: usize, moduli: &Vec<u64>, modulus: u64) -> (r: Result<Self, PirError>)
        ensures
            r is Ok == Self::buildable(degree, moduli@, modulus),
            match r {
                Ok(parameters) => {
                    &&& parameters.wf()
                    &&& parameters.degree() == degree
                    &&& parameters.moduli() == moduli@
                    &&& parameters.modulus() == modulus
                    &&& modulus >= 2
                },
                Err(e) => e == PirError::Configuration,
            },
    {
        if degree > MAX_DEGREE {
            return Err(PirError::Configuration);
        }
        let mut i: usize = 0;
        while i < moduli.len()
            invariant
                i <= moduli@.len(),
                forall|j: int| 0 <= j < i ==> modulus < moduli@[j],
            decreases moduli@.len() - i,
        {
            if moduli[i] <= modulus {
                return Err(PirError::Configuration);
            }
            i += 1;
        }
        match build_parameters(degree, moduli, modulus) {
            Ok(handle) => Ok(SchemeParameters { handle }),
            Err(_) => Err(PirError::Configuration),
        }
    }

    /// The modulus that plaintext scalars are reduced by.
    pub fn plaintext_modulus(&self) -> (modulus: u64)
        ensures
            modulus == self.modulus(),
            modulus >= 2,
    {
        plaintext_modulus_of(&self.handle)
    }

    /// Another handle to the same parameters.
    pub fn share(&self) -> (r: Self)
        ensures
            r.bfv() == self.bfv(),
            r.wf(),
    {
        proof {
            use_type_invariant(self);
        }
        SchemeParameters { handle: share_parameters(&self.handle) }
    }

    pub(crate) fn handle(&self) -> (handle: &Arc<BfvParameters>)
        ensures
            **handle == self.bfv(),
            self.wf(),
    {
        proof {
            use_type_invariant(self);
        }
        &self.handle
    }
}

/// The first slot of a decoded plaintext, which is where a single scalar
/// sits.
pub open spec fn leading(slots: Seq<u64>) -> Option<u64> {
    if slots.len() > 0 {
        Some(slots[0])
    } else {
        None
    }
}

/// The scalar in the first slot, or `Configuration` where there is no slot.
pub fn leading_scalar(slots: &Vec<u64>) -> (r: Result<u64, PirError>)
    ensures
        r == match leading(slots@) {
            Some(value) => Ok::<u64, PirError>(value),
            None => Err(PirError::Configuration),
        },
{
    if slots.len() > 0 {
        Ok(slots[0])
    } else {
        Err(PirError::Configuration)
    }
}

/// The single ciphertext that the server sends back.
pub struct Reply {
    ciphertext: Ciphertext,
}

impl Reply {
    /// The ciphertext has at least one part.
    #[verifier::type_invariant]
    pub open spec fn wf(self) -> bool {
        ciphertext_shape(self.ciphertext()).parts >= 1
    }

    /// The ciphertext of the reply.
    pub closed spec fn ciphertext(self) -> Ciphertext {
        self.ciphertext
    }

    pub(crate) fn new(ciphertext: Ciphertext) -> (r: Self)
        requires
            ciphertext_shape(ciphertext).parts >= 1,
        ensures
            r.ciphertext() == ciphertext,
            r.wf(),
    {
        Reply { ciphertext }
    }
}

/// The client: the only holder of the secret key.
pub struct Client {
    parameters: SchemeParameters,
    key: SecretKey,
}

impl Client {
    /// The key was generated under the client's parameters.
    #[verifier::type_invariant]
    pub open spec fn wf(self) -> bool {
        &&& self.parameters().wf()
        &&& key_parameters(self.key()) == self.parameters().bfv()
    }

    /// The client's secret key.
    pub closed spec fn key(self) -> SecretKey {
        self.key
    }

    /// The parameters that the client encrypts under.
    pub closed spec fn parameters(self) -> SchemeParameters {
        self.parameters
    }

    /// `ciphertext` is one of the encryptions of `value` under the client's
    /// key.
    pub open spec fn seals(self, ciphertext: Ciphertext, value: u64) -> bool {
        encoded(value, self.parameters().bfv()) matches Ok(plaintext) && encryptions(
            self.key(),
            plaintext,
        ).contains(ciphertext)
    }

    /// The scalar that the client reads out of `ciphertext`: the first slot
    /// of the decoded decryption, where decryption and decoding succeed.
    pub open spec fn opens(self, ciphertext: Ciphertext) -> Option<u64> {
        match decrypted(self.key(), ciphertext) {
            Ok(plaintext) => match decoded(plaintext) {
                Ok(slots) => leading(slots),
                Err(_) => None,
            },
            Err(_) => None,
        }
    }

    /// What a retrieval returns for the server's ciphertext.
    pub open spec fn reads(self, ciphertext: Ciphertext) -> Result<u64, PirError> {
        match self.opens(ciphertext) {
            Some(value) => Ok(value),
            None => Err(PirError::Configuration),
        }
    }

    /// Generates a secret key under `parameters`.
    pub fn generate(parameters: &SchemeParameters, rng: &mut ThreadRng) -> (client: Self)
        ensures
            client.wf(),
            client.parameters().bfv() == parameters.bfv(),
    {
        let own = parameters.share();
        let key = generate_key(own.handle(), rng);
        Client { parameters: own, key }
    }

    pub(crate) fn secret(&self) -> (key: &SecretKey)
        ensures
            *key == self.key(),
            self.wf(),
    {
        proof {
            use_type_invariant(self);
        }
        &self.key
    }

    pub(crate) fn scheme(&self) -> (parameters: &SchemeParameters)
        ensures
            *parameters == self.parameters(),
            self.wf(),
    {
        proof {
            use_type_invariant(self);
        }
        &self.parameters
    }
}

/// Decrypts the server's reply, decodes it and returns the scalar in its
/// first slot, which is below the plaintext modulus. A reply that the scheme
/// cannot decrypt or decode is a `Configuration` error.
pub fn client_decrypt(reply: &Reply, client: &Client) -> (r: Result<u64, PirError>)
    ensures
        r == client.reads(reply.ciphertext()),
        r matches Ok(value) ==> value < client.parameters().modulus(),
{
    proof {
        use_type_invariant(reply);
    }
    match decrypt(client.secret(), &reply.ciphertext) {
        Ok(plaintext) => match decode(&plaintext) {
            Ok(slots) => leading_scalar(&slots),
            Err(_) => Err(PirError::Configuration),
        },
        Err(_) => Err(PirError::Configuration),
    }
}

/// Holds a retrieved scalar against the value it is known to stand for.
pub fn check_retrieved(expected: u64, retrieved: u64) -> (r: Result<u64, PirError>)
    ensures
        r == if retrieved == expected {
            Ok::<u64, PirError>(retrieved)
        } else {
            Err(PirError::InternalConsistency)
        },
{
    if retrieved == expected {
        Ok(retrieved)
    } else {
        Err(PirError::InternalConsistency)
    }
}

} // verus!
