//! Retrieval with one selection vector as long as the database.

use crate::client::{client_decrypt, Client, Reply};
use crate::database::Database;
use crate::error::PirError;
use crate::promise::{opens_fresh, opens_scalar_product, reduced};
use crate::scheme::{dot_product, scalar_product};
use crate::selection::{
    build_selection, lemma_one_hot_sum, lemma_selection_opens, selects, SelectionVector,
};
use fhe::bfv::Ciphertext;
use rand::rngs::ThreadRng;
use vstd::prelude::*;

verus! {

/// What a retrieval returns once the selection vector is built: what the
/// client reads out of the scalar dot product of the selection vector with
/// the encoded database.
pub open spec fn outcome(database: Database, client: Client, selection: Seq<Ciphertext>) -> Result<
    u64,
    PirError,
> {
    match scalar_product(selection, database.plaintexts()) {
        Ok(ciphertext) => client.reads(ciphertext),
        Err(_) => Err(PirError::Configuration),
    }
}

/// The server's step: one scalar dot product of the selection vector with
/// the whole database, which yields one ciphertext. `Configuration` reports
/// that the scheme refused the dot product.
pub fn server_compute(database: &Database, selection: &SelectionVector) -> (r: Result<
    Reply,
    PirError,
>)
    ensures
        match scalar_product(selection@, database.plaintexts()) {
            Ok(ciphertext) => r matches Ok(reply) && reply.ciphertext() == ciphertext && reply.wf(),
            Err(_) => r matches Err(e) && e == PirError::Configuration,
        },
{
    let ciphertexts = selection.ciphertexts();
    let plaintexts = database.encodings();
    match dot_product(ciphertexts.as_slice(), plaintexts.as_slice()) {
        Ok(ciphertext) => Ok(Reply::new(ciphertext)),
        Err(_) => Err(PirError::Configuration),
    }
}

/// Fetches the scalar at `index` without showing the server which index it
/// is: the client uploads a selection vector as long as the database, the
/// server answers with one ciphertext, and the client reads the scalar out
/// of it.
///
/// An index outside the database is refused with `Index` before anything is
/// encrypted: the source of randomness is left as it was. For an index
/// inside it a selection vector is built and the result is what the client
/// reads out of the server's reply to it; `Configuration` reports that the
/// scheme refused the dot product or the decryption. A scalar that is
/// returned is below the plaintext modulus.
pub fn retrieve(database: &Database, index: usize, client: &Client, rng: &mut ThreadRng) -> (r:
    Result<u64, PirError>)
    ensures
        index >= database@.len() ==> r == Err::<u64, PirError>(PirError::Index) && *final(rng)
            == *old(rng),
        index < database@.len() ==> exists|selection: Seq<Ciphertext>|
            #[trigger] selects(*client, selection, database@.len(), index as nat) && r == outcome(
                *database,
                *client,
                selection,
            ),
        r matches Ok(value) ==> value < client.parameters().modulus(),
{
    if index >= database.len() {
        return Err(PirError::Index);
    }
    let selection = build_selection(client, database.len(), index, rng).unwrap();
    let reply = match server_compute(database, &selection) {
        Ok(reply) => reply,
        Err(e) => {
            assert(outcome(*database, *client, selection@) == Err::<u64, PirError>(e));
            return Err(e);
        },
    };
    let value = client_decrypt(&reply, client);
    assert(value == outcome(*database, *client, selection@));
    value
}

/// Retrieval returns the scalar at the index, for every database and every
/// index in it, where client and server share the parameters and the scheme
/// keeps its promises on the values of this retrieval.
pub proof fn lemma_retrieval(database: Database, client: Client, selection: Seq<Ciphertext>, index: nat)
    requires
        database.wf(),
        client.wf(),
        database.parameters().bfv() == client.parameters().bfv(),
        index < database@.len(),
        selects(client, selection, database@.len(), index),
        opens_fresh(client, 0),
        opens_fresh(client, 1),
        opens_scalar_product(client, selection, database@, database.plaintexts()),
    ensures
        outcome(database, client, selection) == Ok::<u64, PirError>(database@[index as int]),
{
    lemma_selection_opens(client, selection, database@.len(), index);
    lemma_one_hot_sum(database@.len(), index, database@, database@.len());
    let value = database@[index as int] as int;
    let modulus = client.parameters().modulus() as int;
    assert(reduced(client, value) == value) by {
        vstd::arithmetic::div_mod::lemma_small_mod(value as nat, modulus as nat);
    }
}

} // verus!
