use crate::error::PirError;
use vstd::prelude::*;

verus! {

/// `side` is the exact square root of `n`.
pub open spec fn is_side_of(side: nat, n: nat) -> bool {
    side * side == n
}

/// `n` is a perfect square.
pub open spec fn is_square(n: nat) -> bool {
    exists|side: nat| is_side_of(side, n)
}

/// `root` is the largest number whose square does not exceed `n`.
pub open spec fn is_floor_root(root: nat, n: nat) -> bool {
    root * root <= n < (root + 1) * (root + 1)
}

/// `root` is the smallest number whose square reaches `n`.
pub open spec fn is_ceil_root(root: nat, n: nat) -> bool {
    &&& root * root >= n
    &&& root > 0 ==> (root - 1) * (root - 1) < n
}

/// Squaring preserves order on the naturals.
pub proof fn lemma_square_monotonic(a: nat, b: nat)
    requires
        a <= b,
    ensures
        a * a <= b * b,
{
    assert(a * a <= b * b) by (nonlinear_arith)
        requires
            0 <= a <= b,
    ;
}

/// A number strictly between two consecutive squares is no square.
pub proof fn lemma_between_squares(root: nat, n: nat)
    requires
        root * root < n < (root + 1) * (root + 1),
    ensures
        !is_square(n),
{
    assert forall|side: nat| !is_side_of(side, n) by {
        if side <= root {
            lemma_square_monotonic(side, root);
        } else {
            lemma_square_monotonic(root + 1, side);
        }
    }
}

/// The largest `root` with `root * root <= n`.
pub fn integer_sqrt(n: usize) -> (root: usize)
    ensures
        is_floor_root(root as nat, n as nat),
{
    let mut low: usize = 0;
    let mut high: usize = n;
    assert(n < (n + 1) * (n + 1)) by (nonlinear_arith)
        requires
            n >= 0,
    ;
    while low < high
        invariant
            low <= high <= n,
            low * low <= n < (high + 1) * (high + 1),
        decreases high - low,
    {
        let middle: usize = high - (high - low) / 2;
        assert(middle * middle <= u128::MAX) by (nonlinear_arith)
            requires
                0 <= middle <= usize::MAX,
                usize::MAX <= u64::MAX,
        ;
        let squared: u128 = (middle as u128) * (middle as u128);
        if squared <= n as u128 {
            low = middle;
        } else {
            high = middle - 1;
        }
    }
    low
}

/// The side of the square grid that holds `n` cells, if `n` is a perfect
/// square.
pub fn grid_side(n: usize) -> (r: Result<usize, PirError>)
    ensures
        match r {
            Ok(side) => is_side_of(side as nat, n as nat),
            Err(e) => e == PirError::Configuration && !is_square(n as nat),
        },
{
    let root: usize = integer_sqrt(n);
    assert(root * root <= u128::MAX) by (nonlinear_arith)
        requires
            0 <= root <= usize::MAX,
            usize::MAX <= u64::MAX,
    ;
    let squared: u128 = (root as u128) * (root as u128);
    if squared == n as u128 {
        Ok(root)
    } else {
        proof {
            lemma_between_squares(root as nat, n as nat);
        }
        Err(PirError::Configuration)
    }
}

/// Row and column of a cell in a row-major grid.
#[derive(Clone, Copy, Debug, PartialEq, Eq, Structural)]
pub struct Cell {
    pub row: usize,
    pub column: usize,
}

/// The cell that `index` names in a row-major grid with rows of length
/// `side`.
pub open spec fn cell_at(index: nat, side: nat) -> (nat, nat) {
    (index / side, index % side)
}

/// Splits `index` into the row and column it names in a row-major grid with
/// rows of length `side`.
pub fn cell_of(index: usize, side: usize) -> (cell: Cell)
    requires
        side > 0,
    ensures
        (cell.row as nat, cell.column as nat) == cell_at(index as nat, side as nat),
        cell.row * side + cell.column == index,
        cell.column < side,
{
    let cell = Cell { row: index / side, column: index % side };
    proof {
        vstd::arithmetic::div_mod::lemma_fundamental_div_mod(index as int, side as int);
        vstd::arithmetic::mul::lemma_mul_is_commutative(side as int, (index / side) as int);
    }
    cell
}

/// In a square grid every index below the number of cells names a row below
/// the side, and row and column name the index back.
pub proof fn lemma_cell_in_grid(index: nat, side: nat)
    requires
        index < side * side,
    ensures
        cell_at(index, side).0 < side,
        cell_at(index, side).1 < side,
        cell_at(index, side).0 * side + cell_at(index, side).1 == index,
{
    assert(side > 0) by (nonlinear_arith)
        requires
            index < side * side,
    ;
    vstd::arithmetic::div_mod::lemma_fundamental_div_mod(index as int, side as int);
    vstd::arithmetic::mul::lemma_mul_is_commutative(side as int, (index / side) as int);
    let row = index / side;
    assert(row < side) by (nonlinear_arith)
        requires
            row * side <= index,
            index < side * side,
            side > 0,
    ;
}

/// Two selection vectors of the side's length are fewer ciphertexts than one
/// of the database's length, for every database of more than four elements
/// but those of five and six.
pub proof fn lemma_grid_upload_smaller(n: nat, root: nat)
    requires
        is_ceil_root(root, n),
        n > 4,
        n != 5,
        n != 6,
    ensures
        2 * root < n,
{
    if root <= 3 {
    } else {
        assert((root - 1) * (root - 1) >= 2 * root) by (nonlinear_arith)
            requires
                root >= 4,
        ;
    }
}

/// For a database whose length is a perfect square above four, two
/// selection vectors of the side's length are fewer ciphertexts than one of
/// the database's length.
pub proof fn lemma_square_upload_smaller(n: nat, side: nat)
    requires
        is_side_of(side, n),
        n > 4,
    ensures
        is_ceil_root(side, n),
        2 * side < n,
{
    assert(side >= 3 && (side - 1) * (side - 1) < side * side) by (nonlinear_arith)
        requires
            side * side > 4,
    ;
    assert(side * side >= 3 * side) by (nonlinear_arith)
        requires
            side >= 3,
    ;
}

} // verus!
