//! Retrieval over a square grid: the database is read row by row as a grid
//! with as many rows as columns, and the client uploads one selection vector
//! for the column and one for the row.

use crate::client::{client_decrypt, Client, Reply};
use crate::database::Database;
use crate::error::PirError;
use crate::grid::{cell_of, grid_side, is_side_of, is_square, lemma_cell_in_grid};
use crate::promise::{opens_fresh, opens_product, opens_scalar_product, opens_sum};
use crate::scheme::{
    accumulate, ciphertext_product, ciphertext_shape, ciphertext_sum, dot_product, multiply,
    plaintext_level, scalar_product, Shape,
};
use crate::selection::{
    all_fresh, build_selection, lemma_one_hot_sum, lemma_selection_opens, selects, SelectionVector,
};
use fhe::bfv::{BfvParameters, Ciphertext, Plaintext};
use rand::rngs::ThreadRng;
use vstd::prelude::*;
use vstd::slice::slice_subrange;

verus! {

/// The two selection vectors of one retrieval: `columns` selects the column
/// of the wanted cell, `rows` its row.
pub struct MatrixQuery {
    rows: SelectionVector,
    columns: SelectionVector,
}

impl MatrixQuery {
    /// Both vectors are as long as the grid's side, which is at least one,
    /// and were encrypted under the same parameters.
    #[verifier::type_invariant]
    pub open spec fn wf(self) -> bool {
        &&& self.rows().len() == self.side()
        &&& self.side() >= 1
        &&& 2 * self.side() <= usize::MAX
        &&& all_fresh(self.rows(), self.parameters())
        &&& all_fresh(self.columns(), self.parameters())
    }

    /// The ciphertexts that select the row.
    pub closed spec fn rows(self) -> Seq<Ciphertext> {
        self.rows@
    }

    /// The ciphertexts that select the column.
    pub closed spec fn columns(self) -> Seq<Ciphertext> {
        self.columns@
    }

    /// The side of the grid that the query was made for.
    pub open spec fn side(self) -> nat {
        self.columns().len()
    }

    /// The parameters that the ciphertexts were encrypted under.
    pub open spec fn parameters(self) -> BfvParameters {
        ciphertext_shape(self.columns()[0]).parameters
    }

    /// The number of ciphertexts that the client uploads: two for each unit
    /// of the grid's side.
    pub fn upload_count(&self) -> (n: usize)
        ensures
            n == 2 * self.side(),
    {
        proof {
            use_type_invariant(self);
        }
        self.rows.len() + self.columns.len()
    }
}

/// The ciphertexts that the server's first stage hands to its second: one
/// for each row of the grid. Its view is that sequence.
pub struct IntermediateResult {
    ciphertexts: Vec<Ciphertext>,
}

impl View for IntermediateResult {
    type V = Seq<Ciphertext>;

    closed spec fn view(&self) -> Seq<Ciphertext> {
        self.ciphertexts@
    }
}

impl IntermediateResult {
    /// All ciphertexts have the shape of a fresh encryption under the same
    /// parameters.
    #[verifier::type_invariant]
    pub open spec fn wf(self) -> bool {
        all_fresh(self@, self.parameters())
    }

    /// The parameters that the ciphertexts were computed under.
    pub open spec fn parameters(self) -> BfvParameters {
        ciphertext_shape(self@[0]).parameters
    }
}

/// The stretch of a row-major grid that is row `row`.
pub open spec fn grid_row<T>(cells: Seq<T>, row: int, side: int) -> Seq<T> {
    cells.subrange(row * side, (row + 1) * side)
}

/// `rows` and `columns` are the selection vectors for `index` in a grid of
/// the given side, under the client's key.
pub open spec fn queries(
    client: Client,
    rows: Seq<Ciphertext>,
    columns: Seq<Ciphertext>,
    side: nat,
    index: nat,
) -> bool {
    &&& selects(client, columns, side, index % side)
    &&& selects(client, rows, side, index / side)
}

/// The scalar dot product of the column selection with row `row` of the
/// encoded database.
pub open spec fn row_product(plaintexts: Seq<Plaintext>, columns: Seq<Ciphertext>, row: int) -> Result<
    Ciphertext,
    fhe::Error,
> {
    scalar_product(columns, grid_row(plaintexts, row, columns.len() as int))
}

/// What the first stage yields where every row's dot product succeeds.
pub open spec fn intermediates(plaintexts: Seq<Plaintext>, columns: Seq<Ciphertext>) -> Seq<
    Ciphertext,
> {
    Seq::new(columns.len(), |row: int| row_product(plaintexts, columns, row)->Ok_0)
}

/// The sum of the first `count` products of a row selector with the
/// intermediate ciphertext of its row, added up from the first row on.
pub open spec fn folded(rows: Seq<Ciphertext>, intermediate: Seq<Ciphertext>, count: nat) -> Ciphertext
    decreases count,
{
    if count <= 1 {
        ciphertext_product(rows[0], intermediate[0])
    } else {
        ciphertext_sum(
            folded(rows, intermediate, (count - 1) as nat),
            ciphertext_product(rows[count - 1], intermediate[count - 1]),
        )
    }
}

/// What the server answers to a query: `Configuration` where the database
/// is no grid of the query's side or the scheme refuses a row's dot product,
/// else the sum over all rows of row selector times collapsed row.
pub open spec fn answer(plaintexts: Seq<Plaintext>, rows: Seq<Ciphertext>, columns: Seq<Ciphertext>) -> Result<
    Ciphertext,
    PirError,
> {
    if !is_side_of(columns.len(), plaintexts.len()) {
        Err(PirError::Configuration)
    } else if exists|row: int|
        0 <= row < columns.len() && (#[trigger] row_product(plaintexts, columns, row)) is Err {
        Err(PirError::Configuration)
    } else {
        Ok(folded(rows, intermediates(plaintexts, columns), columns.len()))
    }
}

/// What a retrieval returns once the two selection vectors are built.
pub open spec fn outcome(
    database: Database,
    client: Client,
    rows: Seq<Ciphertext>,
    columns: Seq<Ciphertext>,
) -> Result<u64, PirError> {
    match answer(database.plaintexts(), rows, columns) {
        Ok(ciphertext) => client.reads(ciphertext),
        Err(e) => Err(e),
    }
}

/// The client's first step: the selection vectors for the row and the
/// column of `index` in a database of `length` scalars.
///
/// A length that is no perfect square is refused with `Configuration`, and
/// then an index outside the database with `Index`, both before anything is
/// encrypted: the source of randomness is left as it was. Every index inside
/// a database of square length is served.
pub fn client_populate(client: &Client, length: usize, index: usize, rng: &mut ThreadRng) -> (r:
    Result<MatrixQuery, PirError>)
    ensures
        !is_square(length as nat) || index >= length ==> *final(rng) == *old(rng),
        r is Ok <==> is_square(length as nat) && index < length,
        match r {
            Ok(query) => {
                &&& is_side_of(query.side(), length as nat)
                &&& queries(*client, query.rows(), query.columns(), query.side(), index as nat)
                &&& query.parameters() == client.parameters().bfv()
                &&& query.wf()
            },
            Err(e) => e == if !is_square(length as nat) {
                PirError::Configuration
            } else {
                PirError::Index
            },
        },
{
    let side = match grid_side(length) {
        Ok(side) => side,
        Err(e) => {
            return Err(e);
        },
    };
    if index >= length {
        return Err(PirError::Index);
    }
    proof {
        lemma_cell_in_grid(index as nat, side as nat);
        assert(2 * side <= side * side || side == 1) by (nonlinear_arith)
            requires
                side >= 1,
        ;
    }
    let cell = cell_of(index, side);
    let columns = build_selection(client, side, cell.column, rng).unwrap();
    let rows = build_selection(client, side, cell.row, rng).unwrap();
    Ok(MatrixQuery { rows, columns })
}

/// The server's first stage: for every row of the grid, the scalar dot
/// product of the column selection with that row. Each result holds the
/// row's scalar in the selected column, still encrypted.
///
/// `Configuration` reports that the database is no grid of the query's
/// side, or that the scheme refused the dot product of some row.
pub fn vector_dot_cp(database: &Database, query: &MatrixQuery) -> (r: Result<
    IntermediateResult,
    PirError,
>)
    ensures
        match r {
            Ok(intermediate) => {
                &&& is_side_of(query.side(), database@.len())
                &&& intermediate@.len() == query.side()
                &&& forall|row: int|
                    0 <= row < query.side() ==> #[trigger] row_product(
                        database.plaintexts(),
                        query.columns(),
                        row,
                    ) == Ok::<Ciphertext, fhe::Error>(intermediate@[row])
                &&& intermediate@ == intermediates(database.plaintexts(), query.columns())
                &&& intermediate.parameters() == query.parameters()
                &&& intermediate.wf()
            },
            Err(e) => {
                &&& e == PirError::Configuration
                &&& answer(database.plaintexts(), query.rows(), query.columns()) is Err
            },
        },
{
    proof {
        use_type_invariant(query);
    }
    let columns = query.columns.ciphertexts();
    let plaintexts = database.encodings();
    let side = columns.len();
    let cells = plaintexts.len();
    match side.checked_mul(side) {
        Some(area) => {
            if area != cells {
                return Err(PirError::Configuration);
            }
        },
        None => {
            return Err(PirError::Configuration);
        },
    }
    let mut ciphertexts: Vec<Ciphertext> = Vec::new();
    let mut row: usize = 0;
    while row < side
        invariant
            row <= side,
            side == columns@.len(),
            side >= 1,
            cells == plaintexts@.len(),
            side * side == cells,
            columns@ == query.columns(),
            plaintexts@ == database.plaintexts(),
            all_fresh(columns@, query.parameters()),
            forall|j: int| 0 <= j < cells ==> #[trigger] plaintext_level(plaintexts@[j]) == 0,
            ciphertexts@.len() == row,
            all_fresh(ciphertexts@, query.parameters()),
            forall|j: int|
                0 <= j < row ==> #[trigger] row_product(plaintexts@, columns@, j) == Ok::<
                    Ciphertext,
                    fhe::Error,
                >(ciphertexts@[j]),
        decreases side - row,
    {
        assert((row + 1) * side <= side * side && row * side + side == (row + 1) * side) by (nonlinear_arith)
            requires
                row < side,
        ;
        let start = row * side;
        let end = start + side;
        let stretch = slice_subrange(plaintexts.as_slice(), start, end);
        assert(stretch@ == grid_row(plaintexts@, row as int, side as int));
        assert forall|k: int| 0 <= k < stretch@.len() implies #[trigger] plaintext_level(
            stretch@[k],
        ) == 0 by {
            assert(stretch@[k] == plaintexts@[start + k]);
        }
        match dot_product(columns.as_slice(), stretch) {
            Ok(ciphertext) => {
                ciphertexts.push(ciphertext);
            },
            Err(_) => {
                assert(row_product(plaintexts@, columns@, row as int) is Err);
                return Err(PirError::Configuration);
            },
        }
        row += 1;
    }
    assert(ciphertexts@ =~= intermediates(plaintexts@, columns@));
    Ok(IntermediateResult { ciphertexts })
}

/// The server's second stage: every row selector times the intermediate
/// ciphertext of its row, added up into one ciphertext. This is the second
/// multiplication that the ciphertexts go through.
///
/// The intermediate ciphertexts must come from the same parameters as the
/// query, or the scheme panics. `Configuration` reports that there is not
/// one intermediate ciphertext for every row.
pub fn vector_dot_cc(intermediate: &IntermediateResult, query: &MatrixQuery) -> (r: Result<
    Reply,
    PirError,
>)
    requires
        intermediate.parameters() == query.parameters(),
    ensures
        match r {
            Ok(reply) => {
                &&& intermediate@.len() == query.side()
                &&& reply.ciphertext() == folded(query.rows(), intermediate@, query.side())
                &&& reply.wf()
            },
            Err(e) => e == PirError::Configuration && intermediate@.len() != query.side(),
        },
{
    proof {
        use_type_invariant(query);
        use_type_invariant(intermediate);
    }
    let rows = query.rows.ciphertexts();
    let side = rows.len();
    if intermediate.ciphertexts.len() != side {
        return Err(PirError::Configuration);
    }
    let ghost parameters = query.parameters();
    let ghost summed = Shape { parameters, level: 0, parts: 3 };
    let mut total = multiply(&rows[0], &intermediate.ciphertexts[0]);
    let mut row: usize = 1;
    while row < side
        invariant
            1 <= row <= side,
            side == rows@.len(),
            side == intermediate@.len(),
            rows@ == query.rows(),
            all_fresh(rows@, parameters),
            all_fresh(intermediate@, parameters),
            summed == (Shape { parameters, level: 0, parts: 3 }),
            ciphertext_shape(total) == summed,
            total == folded(rows@, intermediate@, row as nat),
        decreases side - row,
    {
        let term = multiply(&rows[row], &intermediate.ciphertexts[row]);
        accumulate(&mut total, &term);
        row += 1;
    }
    Ok(Reply::new(total))
}

/// The server's step: both stages, one after the other.
pub fn server_compute(database: &Database, query: &MatrixQuery) -> (r: Result<Reply, PirError>)
    ensures
        match answer(database.plaintexts(), query.rows(), query.columns()) {
            Ok(ciphertext) => r matches Ok(reply) && reply.ciphertext() == ciphertext && reply.wf(),
            Err(e) => r matches Err(f) && f == e,
        },
{
    proof {
        use_type_invariant(query);
        use_type_invariant(database);
    }
    let intermediate = match vector_dot_cp(database, query) {
        Ok(intermediate) => intermediate,
        Err(e) => {
            return Err(e);
        },
    };
    vector_dot_cc(&intermediate, query)
}

/// Fetches the scalar at `index` without showing the server which index it
/// is: the client uploads a selection vector for the column and one for the
/// row, the server collapses the columns and then the rows, and the client
/// reads the scalar out of the one ciphertext that is left.
///
/// A database whose length is no perfect square is refused with
/// `Configuration`, and then an index outside the database with `Index`,
/// both before anything is encrypted: the source of randomness is left as it
/// was. Past these checks the two selection vectors are built and the result
/// is what the client reads out of the server's reply to them;
/// `Configuration` then reports that the scheme refused a dot product or the
/// decryption. A scalar that is returned is below the plaintext modulus.
pub fn retrieve(database: &Database, index: usize, client: &Client, rng: &mut ThreadRng) -> (r:
    Result<u64, PirError>)
    ensures
        !is_square(database@.len()) || index >= database@.len() ==> *final(rng) == *old(rng),
        !is_square(database@.len()) ==> r == Err::<u64, PirError>(PirError::Configuration),
        is_square(database@.len()) && index >= database@.len() ==> r == Err::<u64, PirError>(
            PirError::Index,
        ),
        is_square(database@.len()) && index < database@.len() ==> exists|
            rows: Seq<Ciphertext>,
            columns: Seq<Ciphertext>,
        |
            {
                &&& is_side_of(columns.len(), database@.len())
                &&& #[trigger] queries(*client, rows, columns, columns.len(), index as nat)
                &&& r == outcome(*database, *client, rows, columns)
            },
        r matches Ok(value) ==> value < client.parameters().modulus(),
{
    let query = match client_populate(client, database.len(), index, rng) {
        Ok(query) => query,
        Err(e) => {
            return Err(e);
        },
    };
    let reply = match server_compute(database, &query) {
        Ok(reply) => reply,
        Err(e) => {
            assert(outcome(*database, *client, query.rows(), query.columns()) == Err::<u64, PirError>(e));
            assert(queries(*client, query.rows(), query.columns(), query.columns().len(), index as nat));
            return Err(e);
        },
    };
    let value = client_decrypt(&reply, client);
    assert(value == outcome(*database, *client, query.rows(), query.columns()));
    assert(queries(*client, query.rows(), query.columns(), query.columns().len(), index as nat));
    value
}

/// The scheme keeps its promises on every value that the server's two
/// stages compute for this query: on the dot product of every row, on every
/// product of a row selector with its collapsed row, and on every sum that
/// adds such a product to the ones before it.
pub open spec fn within_budget(
    database: Database,
    client: Client,
    rows: Seq<Ciphertext>,
    columns: Seq<Ciphertext>,
) -> bool {
    let side = columns.len() as int;
    let between = intermediates(database.plaintexts(), columns);
    &&& forall|row: int|
        0 <= row < side ==> #[trigger] opens_scalar_product(
            client,
            columns,
            grid_row(database@, row, side),
            grid_row(database.plaintexts(), row, side),
        )
    &&& forall|row: int| 0 <= row < side ==> opens_product(client, #[trigger] rows[row], between[row])
    &&& forall|count: nat|
        1 <= count < side ==> opens_sum(
            client,
            #[trigger] folded(rows, between, count),
            ciphertext_product(rows[count as int], between[count as int]),
        )
}

/// What the client reads out of the product for one row: the wanted scalar
/// in the wanted row, zero in every other.
proof fn lemma_row_opens(
    database: Database,
    client: Client,
    rows: Seq<Ciphertext>,
    columns: Seq<Ciphertext>,
    index: nat,
    row: int,
)
    requires
        database.wf(),
        is_side_of(columns.len(), database@.len()),
        index < database@.len(),
        database@[index as int] < client.parameters().modulus(),
        queries(client, rows, columns, columns.len(), index),
        opens_fresh(client, 0),
        opens_fresh(client, 1),
        within_budget(database, client, rows, columns),
        0 <= row < columns.len(),
    ensures
        row_product(database.plaintexts(), columns, row) is Ok,
        client.opens(
            ciphertext_product(rows[row], intermediates(database.plaintexts(), columns)[row]),
        ) == Some(
            if row == index / columns.len() {
                database@[index as int]
            } else {
                0u64
            },
        ),
{
    let side = columns.len();
    let wanted_row = index / side;
    let wanted_column = index % side;
    let stretch = grid_row(database@, row, side as int);
    let between = intermediates(database.plaintexts(), columns);
    lemma_cell_in_grid(index, side);
    lemma_selection_opens(client, columns, side, wanted_column);
    lemma_selection_opens(client, rows, side, wanted_row);
    assert((row + 1) * side <= side * side && row * side + side == (row + 1) * side) by (nonlinear_arith)
        requires
            0 <= row < side,
    ;
    assert(opens_scalar_product(
        client,
        columns,
        stretch,
        grid_row(database.plaintexts(), row, side as int),
    ));
    lemma_one_hot_sum(side, wanted_column, stretch, side);
    assert(stretch[wanted_column as int] == database@[row * side + wanted_column]);
    assert(opens_product(client, rows[row], between[row]));
    let selector = client.opens(rows[row])->Some_0;
    let collapsed = client.opens(between[row])->Some_0;
    let modulus = client.parameters().modulus() as int;
    if row == wanted_row {
        let value = database@[index as int] as int;
        vstd::arithmetic::div_mod::lemma_small_mod(value as nat, modulus as nat);
        assert(selector * collapsed == collapsed) by (nonlinear_arith)
            requires
                selector == 1,
        ;
    } else {
        assert(selector * collapsed == 0) by (nonlinear_arith)
            requires
                selector == 0,
        ;
        vstd::arithmetic::div_mod::lemma_small_mod(0, modulus as nat);
    }
}

/// What the client reads out of the sum of the first `count` products: the
/// wanted scalar once the sum has passed the wanted row, zero before.
proof fn lemma_fold_opens(
    database: Database,
    client: Client,
    rows: Seq<Ciphertext>,
    columns: Seq<Ciphertext>,
    index: nat,
    count: nat,
)
    requires
        database.wf(),
        is_side_of(columns.len(), database@.len()),
        index < database@.len(),
        database@[index as int] < client.parameters().modulus(),
        queries(client, rows, columns, columns.len(), index),
        opens_fresh(client, 0),
        opens_fresh(client, 1),
        within_budget(database, client, rows, columns),
        1 <= count <= columns.len(),
    ensures
        client.opens(folded(rows, intermediates(database.plaintexts(), columns), count)) == Some(
            if index / columns.len() < count {
                database@[index as int]
            } else {
                0u64
            },
        ),
    decreases count,
{
    let between = intermediates(database.plaintexts(), columns);
    let modulus = client.parameters().modulus() as int;
    lemma_row_opens(database, client, rows, columns, index, count - 1);
    if count > 1 {
        lemma_fold_opens(database, client, rows, columns, index, (count - 1) as nat);
        let before = (count - 1) as nat;
        assert(opens_sum(
            client,
            folded(rows, between, before),
            ciphertext_product(rows[before as int], between[before as int]),
        ));
        vstd::arithmetic::div_mod::lemma_small_mod(database@[index as int] as nat, modulus as nat);
        vstd::arithmetic::div_mod::lemma_small_mod(0, modulus as nat);
    }
}

/// Retrieval returns the scalar at the index, for every database whose
/// length is a perfect square and every index in it, where client and server
/// share the parameters and the scheme keeps its promises on the values of
/// this retrieval.
pub proof fn lemma_retrieval(
    database: Database,
    client: Client,
    rows: Seq<Ciphertext>,
    columns: Seq<Ciphertext>,
    index: nat,
)
    requires
        database.wf(),
        client.wf(),
        database.parameters().bfv() == client.parameters().bfv(),
        is_side_of(columns.len(), database@.len()),
        index < database@.len(),
        queries(client, rows, columns, columns.len(), index),
        opens_fresh(client, 0),
        opens_fresh(client, 1),
        within_budget(database, client, rows, columns),
    ensures
        outcome(database, client, rows, columns) == Ok::<u64, PirError>(database@[index as int]),
{
    let side = columns.len();
    lemma_cell_in_grid(index, side);
    assert forall|row: int| 0 <= row < side implies (#[trigger] row_product(
        database.plaintexts(),
        columns,
        row,
    )) is Ok by {
        lemma_row_opens(database, client, rows, columns, index, row);
    }
    lemma_fold_opens(database, client, rows, columns, index, side);
}

} // verus!
