//! The BFV scheme as this library sees it: the outside types it carries
//! through, names for what the scheme's operations return, and one trusted
//! function for each operation that the protocols call.
//!
//! Nothing here claims that decryption undoes encryption or that the
//! homomorphic operations compute sums and products of the plaintexts: whether
//! they do depends on the noise that the chosen parameters leave room for.
//!
//! The scheme's values keep a handle to the parameters they were made under,
//! and several operations panic unless their operands hold the very same
//! handle. In the contracts below, two values have the same parameters when
//! they hold the same handle; nothing here makes two separately built sets of
//! parameters equal.

use fhe::bfv::{BfvParameters, BfvParametersBuilder, Ciphertext, Encoding, Plaintext, SecretKey};
use fhe_traits::{FheDecoder, FheDecrypter, FheEncoder, FheEncrypter};
use rand::rngs::ThreadRng;
use std::sync::Arc;
use vstd::prelude::*;

verus! {

#[verifier::external_type_specification]
#[verifier::external_body]
pub struct ExBfvParameters(fhe::bfv::BfvParameters);

#[verifier::external_type_specification]
#[verifier::external_body]
pub struct ExSecretKey(fhe::bfv::SecretKey);

#[verifier::external_type_specification]
#[verifier::external_body]
pub struct ExPlaintext(fhe::bfv::Plaintext);

/// A ciphertext dereferences to a slice of these polynomials, and Verus
/// takes the ciphertext type only where it knows them. Nothing in the
/// library handles one.
#[verifier::external_type_specification]
#[verifier::external_body]
pub struct ExPoly(fhe_math::rq::Poly);

#[verifier::external_type_specification]
#[verifier::external_body]
pub struct ExCiphertext(fhe::bfv::Ciphertext);

#[verifier::external_type_specification]
#[verifier::external_body]
pub struct ExSchemeError(fhe::Error);

#[verifier::external_type_specification]
#[verifier::external_body]
pub struct ExThreadRng(rand::rngs::ThreadRng);

/// What the scheme's operations look at before they touch the polynomials of
/// a ciphertext: the parameters it was made under, its level in the modulus
/// chain, and the number of polynomials it consists of.
pub struct Shape {
    pub parameters: BfvParameters,
    pub level: nat,
    pub parts: nat,
}

/// Whether `BfvParametersBuilder::build_arc` accepts a degree, a list of
/// ciphertext moduli and a plaintext modulus. The builder draws on nothing
/// but these three.
pub uninterp spec fn accepted(degree: usize, moduli: Seq<u64>, modulus: u64) -> bool;

/// The polynomial degree of a set of parameters, as `BfvParameters::degree`
/// returns it.
pub uninterp spec fn polynomial_degree(parameters: BfvParameters) -> usize;

/// The ciphertext moduli of a set of parameters, as `BfvParameters::moduli`
/// returns them.
pub uninterp spec fn ciphertext_moduli(parameters: BfvParameters) -> Seq<u64>;

/// The plaintext modulus of a set of parameters, as `BfvParameters::plaintext`
/// returns it.
pub uninterp spec fn plaintext_modulus(parameters: BfvParameters) -> u64;

/// The variance of the error distribution that a set of parameters was built
/// with.
pub uninterp spec fn error_variance(parameters: BfvParameters) -> nat;

/// The parameters that a secret key was generated under.
pub uninterp spec fn key_parameters(key: SecretKey) -> BfvParameters;

/// The parameters that a plaintext was encoded under.
pub uninterp spec fn plaintext_parameters(plaintext: Plaintext) -> BfvParameters;

/// The level in the modulus chain that a plaintext was encoded at.
pub uninterp spec fn plaintext_level(plaintext: Plaintext) -> nat;

/// The shape of a ciphertext.
pub uninterp spec fn ciphertext_shape(ciphertext: Ciphertext) -> Shape;

/// What `Plaintext::try_encode` returns for the one-element slice holding
/// `value`, in polynomial encoding.
pub uninterp spec fn encoded(value: u64, parameters: BfvParameters) -> Result<Plaintext, fhe::Error>;

/// The ciphertexts that `SecretKey::try_encrypt` may return for a key and a
/// plaintext. Encryption draws randomness, so its result is no function of
/// its arguments; this is the set its result is drawn from.
pub uninterp spec fn encryptions(key: SecretKey, plaintext: Plaintext) -> Set<Ciphertext>;

/// What `SecretKey::try_decrypt` returns.
pub uninterp spec fn decrypted(key: SecretKey, ciphertext: Ciphertext) -> Result<Plaintext, fhe::Error>;

/// What `Vec::<u64>::try_decode` returns for a plaintext, in polynomial
/// encoding.
pub uninterp spec fn decoded(plaintext: Plaintext) -> Result<Seq<u64>, fhe::Error>;

/// What `dot_product_scalar` returns.
pub uninterp spec fn scalar_product(ciphertexts: Seq<Ciphertext>, plaintexts: Seq<Plaintext>) -> Result<Ciphertext, fhe::Error>;

/// What multiplying two ciphertexts returns.
pub uninterp spec fn ciphertext_product(left: Ciphertext, right: Ciphertext) -> Ciphertext;

/// What adding a ciphertext to another leaves in the first.
pub uninterp spec fn ciphertext_sum(total: Ciphertext, term: Ciphertext) -> Ciphertext;

/// The shape of a ciphertext that encryption under `parameters` returns for a
/// plaintext of level 0.
pub open spec fn fresh_shape(parameters: BfvParameters) -> Shape {
    Shape { parameters, level: 0, parts: 2 }
}

/// Decoding succeeds, there is a first slot, and every slot is below
/// `modulus`.
pub open spec fn reduced_slots(slots: Result<Seq<u64>, fhe::Error>, modulus: u64) -> bool {
    slots matches Ok(s) && s.len() >= 1 && forall|i: int| 0 <= i < s.len() ==> #[trigger] s[i]
        < modulus
}

/// The view of a decoding result.
pub open spec fn slots_view(slots: Result<Vec<u64>, fhe::Error>) -> Result<Seq<u64>, fhe::Error> {
    match slots {
        Ok(v) => Ok(v@),
        Err(e) => Err(e),
    }
}

/// `BfvParametersBuilder::build_arc`, after `set_degree`, `set_moduli` and
/// `set_plaintext_modulus`. Whether the builder accepts depends on these
/// three alone. What it builds holds the degree, the moduli and the
/// plaintext modulus as they were given; the builder keeps its default error
/// variance of 10, and accepts a plaintext modulus only from 2 on. Where the
/// plaintext modulus is not below a ciphertext modulus the builder may panic,
/// so such input is left out, as is a degree beyond the largest the builder
/// names.
#[verifier::external_body]
pub(crate) fn build_parameters(degree: usize, moduli: &Vec<u64>, modulus: u64) -> (r: Result<
    Arc<BfvParameters>,
    fhe::Error,
>)
    requires
        degree <= 65536,
        forall|i: int| 0 <= i < moduli@.len() ==> modulus < moduli@[i],
    ensures
        r is Ok == accepted(degree, moduli@, modulus),
        r matches Ok(parameters) ==> {
            &&& polynomial_degree(*parameters) == degree
            &&& ciphertext_moduli(*parameters) == moduli@
            &&& plaintext_modulus(*parameters) == modulus
            &&& modulus >= 2
            &&& error_variance(*parameters) == 10
        },
{
    BfvParametersBuilder::new()
        .set_degree(degree)
        .set_moduli(moduli)
        .set_plaintext_modulus(modulus)
        .build_arc()
}

/// `Arc::clone`: another handle to the same parameters.
#[verifier::external_body]
pub(crate) fn share_parameters(parameters: &Arc<BfvParameters>) -> (r: Arc<BfvParameters>)
    ensures
        *r == **parameters,
{
    Arc::clone(parameters)
}

/// `BfvParameters::plaintext`: the plaintext modulus. No parameters exist
/// with a plaintext modulus below 2.
#[verifier::external_body]
pub(crate) fn plaintext_modulus_of(parameters: &Arc<BfvParameters>) -> (modulus: u64)
    ensures
        modulus == plaintext_modulus(**parameters),
        modulus >= 2,
{
    parameters.plaintext()
}

/// `SecretKey::random`: a fresh key under the given parameters. It panics
/// where the error variance is outside 1 to 16.
#[verifier::external_body]
pub(crate) fn generate_key(parameters: &Arc<BfvParameters>, rng: &mut ThreadRng) -> (key: SecretKey)
    requires
        1 <= error_variance(**parameters) <= 16,
    ensures
        key_parameters(key) == **parameters,
{
    SecretKey::random(parameters, rng)
}

/// `Plaintext::try_encode` of one value in polynomial encoding. The value is
/// taken as it is, without reduction, and in a build with debug assertions a
/// value of four times a ciphertext modulus or more makes the encoder panic;
/// values from the plaintext modulus on are left out, which is below every
/// ciphertext modulus. A single value is never refused. The plaintext keeps
/// the parameters and sits at level 0.
#[verifier::external_body]
pub(crate) fn encode_scalar(value: u64, parameters: &Arc<BfvParameters>) -> (r: Result<
    Plaintext,
    fhe::Error,
>)
    requires
        value < plaintext_modulus(**parameters),
    ensures
        r == encoded(value, **parameters),
        r is Ok,
        r matches Ok(plaintext) ==> {
            &&& plaintext_parameters(plaintext) == **parameters
            &&& plaintext_level(plaintext) == 0
        },
{
    Plaintext::try_encode(&[value], Encoding::poly(), parameters)
}

/// `SecretKey::try_encrypt`. It panics where key and plaintext were not made
/// under the same parameters. It fails only where the error variance of the
/// parameters is outside 1 to 16. The ciphertext has two parts and the level
/// of the plaintext.
#[verifier::external_body]
pub(crate) fn encrypt(key: &SecretKey, plaintext: &Plaintext, rng: &mut ThreadRng) -> (r: Result<
    Ciphertext,
    fhe::Error,
>)
    requires
        key_parameters(*key) == plaintext_parameters(*plaintext),
    ensures
        1 <= error_variance(key_parameters(*key)) <= 16 ==> r is Ok,
        r matches Ok(ciphertext) ==> {
            &&& encryptions(*key, *plaintext).contains(ciphertext)
            &&& ciphertext_shape(ciphertext) == (Shape {
                parameters: key_parameters(*key),
                level: plaintext_level(*plaintext),
                parts: 2,
            })
        },
{
    key.try_encrypt(plaintext, rng)
}

/// `SecretKey::try_decrypt`. It panics on a ciphertext without parts. The
/// plaintext it returns decodes, in polynomial encoding, to one slot for
/// each coefficient of the polynomial degree, which is never below 8, and
/// every slot is reduced by the plaintext modulus.
#[verifier::external_body]
pub(crate) fn decrypt(key: &SecretKey, ciphertext: &Ciphertext) -> (r: Result<Plaintext, fhe::Error>)
    requires
        ciphertext_shape(*ciphertext).parts >= 1,
    ensures
        r == decrypted(*key, *ciphertext),
        r matches Ok(plaintext) ==> reduced_slots(
            decoded(plaintext),
            plaintext_modulus(key_parameters(*key)),
        ),
{
    key.try_decrypt(ciphertext)
}

/// `Vec::<u64>::try_decode` in polynomial encoding.
#[verifier::external_body]
pub(crate) fn decode(plaintext: &Plaintext) -> (r: Result<Vec<u64>, fhe::Error>)
    ensures
        slots_view(r) == decoded(*plaintext),
{
    Vec::<u64>::try_decode(plaintext, Encoding::poly())
}

/// `dot_product_scalar` over two slices. It panics where the first
/// ciphertext has no parts. Past a number of pairs that depends on the
/// ciphertext moduli it also panics where a ciphertext or a plaintext sits
/// at another level than the first ciphertext, so such input is left out
/// whatever the number of pairs. It fails where a slice is empty, before it
/// looks at anything else. Its result has the shape of the first ciphertext.
#[verifier::external_body]
pub(crate) fn dot_product(ciphertexts: &[Ciphertext], plaintexts: &[Plaintext]) -> (r: Result<
    Ciphertext,
    fhe::Error,
>)
    requires
        ciphertexts@.len() > 0 ==> ciphertext_shape(ciphertexts@[0]).parts >= 1,
        forall|k: int|
            0 <= k < ciphertexts@.len() ==> (#[trigger] ciphertext_shape(ciphertexts@[k])).level
                == ciphertext_shape(ciphertexts@[0]).level,
        ciphertexts@.len() > 0 ==> forall|k: int|
            0 <= k < plaintexts@.len() ==> #[trigger] plaintext_level(plaintexts@[k])
                == ciphertext_shape(ciphertexts@[0]).level,
    ensures
        r == scalar_product(ciphertexts@, plaintexts@),
        r matches Ok(ciphertext) ==> {
            &&& ciphertexts@.len() > 0
            &&& plaintexts@.len() > 0
            &&& ciphertext_shape(ciphertext) == ciphertext_shape(ciphertexts@[0])
        },
{
    fhe::bfv::dot_product_scalar(ciphertexts.iter(), plaintexts.iter())
}

/// The product of two ciphertexts by the operator `*` on references. It
/// panics where the two were made under different parameters or sit at
/// different levels. The product has one part fewer than the two together.
#[verifier::external_body]
pub(crate) fn multiply(left: &Ciphertext, right: &Ciphertext) -> (r: Ciphertext)
    requires
        ciphertext_shape(*left).parameters == ciphertext_shape(*right).parameters,
        ciphertext_shape(*left).level == ciphertext_shape(*right).level,
        ciphertext_shape(*left).parts >= 1,
        ciphertext_shape(*right).parts >= 1,
    ensures
        r == ciphertext_product(*left, *right),
        ciphertext_shape(r) == (Shape {
            parameters: ciphertext_shape(*left).parameters,
            level: ciphertext_shape(*left).level,
            parts: (ciphertext_shape(*left).parts + ciphertext_shape(*right).parts - 1) as nat,
        }),
{
    left * right
}

/// The operator `+=` on ciphertexts. It panics where the two differ in
/// parameters, level or number of parts. The shape stays.
#[verifier::external_body]
pub(crate) fn accumulate(total: &mut Ciphertext, term: &Ciphertext)
    requires
        ciphertext_shape(*old(total)) == ciphertext_shape(*term),
        ciphertext_shape(*term).parts >= 1,
    ensures
        *final(total) == ciphertext_sum(*old(total), *term),
        ciphertext_shape(*final(total)) == ciphertext_shape(*term),
{
    *total += term;
}

} // verus!
