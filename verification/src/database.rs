//! The server's database: plain scalars, each kept beside its encoding.

use crate::client::SchemeParameters;
use crate::error::PirError;
use crate::scheme::{encode_scalar, encoded, plaintext_level};
use fhe::bfv::Plaintext;
use rand::rngs::ThreadRng;
use rand::Rng;
use vstd::prelude::*;

verus! {

/// `Rng::random_range` over the numbers from `low` up to but without
/// `high`. It panics where there is no such number. Which number it returns
/// is left to chance.
#[verifier::external_body]
fn random_between(rng: &mut ThreadRng, low: u64, high: u64) -> (value: u64)
    requires
        low < high,
    ensures
        low <= value < high,
{
    rng.random_range(low..high)
}

/// Every scalar is below `modulus`.
pub open spec fn fits(values: Seq<u64>, modulus: u64) -> bool {
    forall|k: int| 0 <= k < values.len() ==> #[trigger] values[k] < modulus
}

/// Every scalar is at least one and below `modulus`.
pub open spec fn all_within(values: Seq<u64>, modulus: u64) -> bool {
    forall|k: int| 0 <= k < values.len() ==> 1 <= #[trigger] values[k] < modulus
}

/// Draws `count` scalars, each at least one and below `modulus`. A modulus
/// below two leaves no such scalar and is refused with `Configuration`.
pub fn random_scalars(count: usize, modulus: u64, rng: &mut ThreadRng) -> (r: Result<
    Vec<u64>,
    PirError,
>)
    ensures
        match r {
            Ok(values) => modulus >= 2 && values@.len() == count && all_within(values@, modulus),
            Err(e) => modulus < 2 && e == PirError::Configuration,
        },
{
    if modulus < 2 {
        return Err(PirError::Configuration);
    }
    let mut values: Vec<u64> = Vec::new();
    let mut k: usize = 0;
    while k < count
        invariant
            k <= count,
            modulus >= 2,
            values@.len() == k,
            all_within(values@, modulus),
        decreases count - k,
    {
        values.push(random_between(rng, 1, modulus));
        k += 1;
    }
    Ok(values)
}

/// An ordered sequence of scalars, indexed from 0, that does not change once
/// it is built. Its view is the sequence of scalars.
pub struct Database {
    parameters: SchemeParameters,
    values: Vec<u64>,
    plaintexts: Vec<Plaintext>,
}

impl View for Database {
    type V = Seq<u64>;

    closed spec fn view(&self) -> Seq<u64> {
        self.values@
    }
}

impl Database {
    /// Every scalar is below the plaintext modulus and kept beside its
    /// encoding under the database's parameters, and every encoding sits at
    /// level 0.
    #[verifier::type_invariant]
    pub open spec fn wf(self) -> bool {
        &&& self.parameters().wf()
        &&& self.plaintexts().len() == self@.len()
        &&& fits(self@, self.parameters().modulus())
        &&& forall|k: int|
            0 <= k < self.plaintexts().len() ==> #[trigger] plaintext_level(self.plaintexts()[k])
                == 0
        &&& forall|k: int|
            0 <= k < self@.len() ==> encoded(#[trigger] self@[k], self.parameters().bfv()) == Ok::<
                Plaintext,
                fhe::Error,
            >(self.plaintexts()[k])
    }

    /// The parameters that the scalars are encoded under.
    pub closed spec fn parameters(self) -> SchemeParameters {
        self.parameters
    }

    /// The encodings of the scalars, in order.
    pub closed spec fn plaintexts(self) -> Seq<Plaintext> {
        self.plaintexts@
    }

    /// Encodes every scalar under `parameters`. It fails with
    /// `Configuration` exactly when a scalar is not below the plaintext
    /// modulus: such a scalar has no encoding that a retrieval could return.
    pub fn new(values: Vec<u64>, parameters: &SchemeParameters) -> (r: Result<Self, PirError>)
        ensures
            r is Ok == fits(values@, parameters.modulus()),
            match r {
                Ok(database) => {
                    &&& database@ == values@
                    &&& database.parameters().bfv() == parameters.bfv()
                    &&& database.wf()
                },
                Err(e) => e == PirError::Configuration,
            },
    {
        let own = parameters.share();
        let modulus = own.plaintext_modulus();
        let mut plaintexts: Vec<Plaintext> = Vec::new();
        let mut k: usize = 0;
        while k < values.len()
            invariant
                k <= values@.len(),
                own.wf(),
                own.bfv() == parameters.bfv(),
                modulus == own.modulus(),
                plaintexts@.len() == k,
                forall|j: int| 0 <= j < k ==> #[trigger] values@[j] < modulus,
                forall|j: int| 0 <= j < k ==> #[trigger] plaintext_level(plaintexts@[j]) == 0,
                forall|j: int|
                    0 <= j < k ==> encoded(#[trigger] values@[j], own.bfv()) == Ok::<
                        Plaintext,
                        fhe::Error,
                    >(plaintexts@[j]),
            decreases values@.len() - k,
        {
            if values[k] >= modulus {
                return Err(PirError::Configuration);
            }
            plaintexts.push(encode_scalar(values[k], own.handle()).unwrap());
            k += 1;
        }
        Ok(Database { parameters: own, values, plaintexts })
    }

    /// The number of scalars.
    pub fn len(&self) -> (n: usize)
        ensures
            n == self@.len(),
    {
        self.values.len()
    }

    /// The scalar at `index`, or `Index` where there is none.
    pub fn get(&self, index: usize) -> (r: Result<u64, PirError>)
        ensures
            r == if index < self@.len() {
                Ok::<u64, PirError>(self@[index as int])
            } else {
                Err(PirError::Index)
            },
    {
        if index < self.values.len() {
            Ok(self.values[index])
        } else {
            Err(PirError::Index)
        }
    }

    pub(crate) fn encodings(&self) -> (plaintexts: &Vec<Plaintext>)
        ensures
            plaintexts@ == self.plaintexts(),
            self.wf(),
    {
        proof {
            use_type_invariant(self);
        }
        &self.plaintexts
    }
}

} // verus!
