//! Integer arithmetic kernels with exact contracts.

use vstd::prelude::*;

verus! {

/// Mathematical factorial: `1 * 2 * ... * n`, with `factorial(0) == 1`.
pub open spec fn factorial(n: nat) -> nat
    decreases n,
{
    if n == 0 {
        1
    } else {
        n * factorial((n - 1) as nat)
    }
}

proof fn lemma_factorial_monotonic(i: nat, j: nat)
    requires
        i <= j,
    ensures
        factorial(i) <= factorial(j),
    decreases j,
{
    if i < j {
        lemma_factorial_monotonic(i, (j - 1) as nat);
        assert(factorial(j) >= factorial((j - 1) as nat)) by (nonlinear_arith)
            requires
                j >= 1,
                factorial(j) == j * factorial((j - 1) as nat),
        ;
    }
}

proof fn lemma_factorial_20_value()
    ensures
        factorial(20) == 2432902008176640000,
{
    reveal_with_fuel(factorial, 2);
    assert(factorial(0) == 1);
    assert(factorial(1) == 1);
    assert(factorial(2) == 2);
    assert(factorial(3) == 6);
    assert(factorial(4) == 24);
    assert(factorial(5) == 120);
    assert(factorial(6) == 720);
    assert(factorial(7) == 5040);
    assert(factorial(8) == 40320);
    assert(factorial(9) == 362880);
    assert(factorial(10) == 3628800);
    assert(factorial(11) == 39916800);
    assert(factorial(12) == 479001600);
    assert(factorial(13) == 6227020800);
    assert(factorial(14) == 87178291200);
    assert(factorial(15) == 1307674368000);
    assert(factorial(16) == 20922789888000);
    assert(factorial(17) == 355687428096000);
    assert(factorial(18) == 6402373705728000);
    assert(factorial(19) == 121645100408832000);
    assert(factorial(20) == 2432902008176640000);
}

/// Mathematical integer power: `x` multiplied by itself `y` times, with
/// `pow_int(x, 0) == 1`.
pub open spec fn pow_int(x: int, y: nat) -> int
    decreases y,
{
    if y == 0 {
        1
    } else {
        pow_int(x, (y - 1) as nat) * x
    }
}

/// Every partial product computed on the way to `x^y` stays inside the
/// signed 32-bit range.
pub open spec fn ipow_fits_i32(x: int, y: nat) -> bool
    decreases y,
{
    if y == 0 {
        true
    } else {
        ipow_fits_i32(x, (y - 1) as nat) && i32::MIN <= pow_int(x, (y - 1) as nat) * x
            <= i32::MAX
    }
}

proof fn lemma_ipow_fits_prefix(x: int, k: nat, y: nat)
    requires
        k <= y,
        ipow_fits_i32(x, y),
    ensures
        ipow_fits_i32(x, k),
    decreases y,
{
    if k < y {
        lemma_ipow_fits_prefix(x, k, (y - 1) as nat);
    }
}

/// The sequence of rows of a matrix held as a `Vec` of row vectors.
pub open spec fn rows_view<T>(m: Seq<Vec<T>>) -> Seq<Seq<T>> {
    m.map_values(|v: Vec<T>| v@)
}

/// All rows have the same length as the first one (vacuously true of the
/// empty matrix).
pub open spec fn uniform_rows<T>(m: Seq<Seq<T>>) -> bool {
    forall|i: int| 0 <= i < m.len() ==> (#[trigger] m[i]).len() == m[0].len()
}

/// One of the multiplication operands has no rows or a first row with no
/// cells.
pub open spec fn has_empty_operand<T>(m1: Seq<Seq<T>>, m2: Seq<Seq<T>>) -> bool {
    m1.len() == 0 || m2.len() == 0 || m1[0].len() == 0 || m2[0].len() == 0
}

/// Both operands are nonempty and rectangular and the inner dimensions
/// agree, so their product is defined.
pub open spec fn multiply_shapes_ok<T>(m1: Seq<Seq<T>>, m2: Seq<Seq<T>>) -> bool {
    &&& !has_empty_operand(m1, m2)
    &&& uniform_rows(m1)
    &&& uniform_rows(m2)
    &&& m1[0].len() == m2.len()
}

/// Cell-for-cell transposition of a nonempty rectangular matrix.
pub open spec fn transpose_cells<T>(m: Seq<Seq<T>>) -> Seq<Seq<T>> {
    Seq::new(m[0].len(), |i: int| Seq::new(m.len(), |j: int| m[j][i]))
}

/// What transposition returns: the empty matrix for an empty or ragged
/// input, the cell-for-cell transpose otherwise.
pub open spec fn transpose_of<T>(m: Seq<Seq<T>>) -> Seq<Seq<T>> {
    if m.len() == 0 || !uniform_rows(m) {
        Seq::empty()
    } else {
        transpose_cells(m)
    }
}

/// Law: transposing twice gives back the original matrix, for every
/// rectangular matrix that is empty or has at least one column. (A matrix
/// with rows but no columns is not recovered: its first transpose is
/// already the empty matrix, which forgets the row count.)
pub proof fn lemma_transpose_involution<T>(m: Seq<Seq<T>>)
    requires
        uniform_rows(m),
        m.len() == 0 || m[0].len() > 0,
    ensures
        transpose_of(transpose_of(m)) == m,
{
    if m.len() == 0 {
        assert(transpose_of(transpose_of(m)) =~~= m);
    } else {
        let t = transpose_cells(m);
        assert(forall|i: int| 0 <= i < t.len() ==> (#[trigger] t[i]).len() == m.len());
        assert(uniform_rows(t));
        assert(transpose_of(m) == t);
        let tt = transpose_cells(t);
        assert(transpose_of(t) == tt);
        assert forall|j: int| 0 <= j < m.len() implies tt[j] =~= m[j] by {
            assert(m[j].len() == m[0].len());
            assert(forall|i: int| 0 <= i < m[0].len() ==> (#[trigger] tt[j][i]) == t[i][j]);
        }
        assert(tt =~~= m);
    }
}

fn rows_are_uniform<T>(matrix: &Vec<Vec<T>>) -> (r: bool)
    requires
        matrix@.len() > 0,
    ensures
        r == uniform_rows(rows_view(matrix@)),
{
    let first_len: usize = matrix[0].len();
    let mut j: usize = 1;
    while j < matrix.len()
        invariant
            1 <= j <= matrix@.len(),
            first_len == matrix@[0]@.len(),
            forall|p: int| 0 <= p < j ==> (#[trigger] matrix@[p])@.len() == first_len,
        decreases matrix@.len() - j,
    {
        if matrix[j].len() != first_len {
            assert(rows_view(matrix@)[j as int].len() != rows_view(matrix@)[0].len());
            return false;
        }
        j = j + 1;
    }
    assert forall|i: int| 0 <= i < rows_view(matrix@).len() implies (#[trigger] rows_view(
        matrix@,
    )[i]).len() == rows_view(matrix@)[0].len() by {
        assert(rows_view(matrix@)[i] == matrix@[i]@);
    }
    true
}

pub struct ArithmeticFunctions;

impl ArithmeticFunctions {
    /// Exact factorial of `n`, refused above 20 because `21!` no longer fits
    /// in a `u64`.
    pub fn compute_factorial(&self, n: u64) -> (r: Result<u64, &'static str>)
        ensures
            r is Ok <==> n <= 20,
            r is Ok ==> r->Ok_0 == factorial(n as nat),
            r is Err ==> r->Err_0@ == "Input value is too large for factorial calculation"@,
    {
        if n > 20 {
            Err("Input value is too large for factorial calculation")
        } else {
            let mut res: u64 = 1;
            let mut i: u64 = 0;
            while i < n
                invariant
                    n <= 20,
                    i <= n,
                    res == factorial(i as nat),
                decreases n - i,
            {
                proof {
                    lemma_factorial_monotonic((i + 1) as nat, 20);
                    lemma_factorial_20_value();
                    assert(factorial((i + 1) as nat) == (i + 1) * factorial(i as nat));
                }
                i = i + 1;
                res = res * i;
            }
            Ok(res)
        }
    }

    /// Exact integer power `x^y`, or `None` as soon as one of the partial
    /// products overflows the signed 32-bit range.
    pub fn compute_ipow(&self, x: i32, y: u32) -> (r: Option<i32>)
        ensures
            r is Some <==> ipow_fits_i32(x as int, y as nat),
            r is Some ==> r->0 == pow_int(x as int, y as nat),
    {
        let mut res: i32 = 1;
        let mut k: u32 = 0;
        while k < y
            invariant
                k <= y,
                res == pow_int(x as int, k as nat),
                ipow_fits_i32(x as int, k as nat),
            decreases y - k,
        {
            res = match res.checked_mul(x) {
                Some(v) => v,
                None => {
                    proof {
                        assert(!ipow_fits_i32(x as int, (k + 1) as nat));
                        if ipow_fits_i32(x as int, y as nat) {
                            lemma_ipow_fits_prefix(x as int, (k + 1) as nat, y as nat);
                        }
                    }
                    return None;
                },
            };
            k = k + 1;
        }
        Some(res)
    }

    /// Transpose of a matrix held as a vector of rows. An empty or ragged
    /// input degrades to the empty matrix instead of failing, so that a
    /// defensive caller can pass a cached matrix through unchecked.
    pub fn compute_transpose<T: Copy>(&self, matrix: &Vec<Vec<T>>) -> (r: Vec<Vec<T>>)
        ensures
            rows_view(r@) == transpose_of(rows_view(matrix@)),
    {
        if matrix.len() == 0 || !rows_are_uniform(matrix) {
            let r: Vec<Vec<T>> = Vec::new();
            assert(rows_view(r@) =~~= transpose_of(rows_view(matrix@)));
            return r;
        }
        let rows: usize = matrix.len();
        let cols: usize = matrix[0].len();
        let mut transposed: Vec<Vec<T>> = Vec::new();
        let mut i: usize = 0;
        while i < cols
            invariant
                uniform_rows(rows_view(matrix@)),
                matrix@.len() == rows,
                rows > 0,
                cols == matrix@[0]@.len(),
                i <= cols,
                transposed@.len() == i,
                forall|p: int| 0 <= p < i ==> (#[trigger] transposed@[p])@.len() == rows,
                forall|p: int, q: int|
                    0 <= p < i && 0 <= q < rows ==> (#[trigger] transposed@[p]@[q]) == matrix@[q]@[p],
            decreases cols - i,
        {
            let mut row: Vec<T> = Vec::new();
            let mut j: usize = 0;
            while j < rows
                invariant
                    uniform_rows(rows_view(matrix@)),
                    matrix@.len() == rows,
                    cols == matrix@[0]@.len(),
                    i < cols,
                    j <= rows,
                    row@.len() == j,
                    forall|q: int| 0 <= q < j ==> (#[trigger] row@[q]) == matrix@[q]@[i as int],
                decreases rows - j,
            {
                assert(rows_view(matrix@)[j as int].len() == rows_view(matrix@)[0].len());
                row.push(matrix[j][i]);
                j = j + 1;
            }
            transposed.push(row);
            i = i + 1;
        }
        assert(rows_view(transposed@) =~~= transpose_of(rows_view(matrix@)));
        transposed
    }

    /// Validates the shapes of a matrix product before any arithmetic is
    /// attempted, in the order the multiplication itself checks them: empty
    /// operands first, then ragged rows, then the inner dimensions. On
    /// success returns the shape `(rows, cols)` of the product.
    pub fn check_multiply_shapes<T>(&self, mat1: &Vec<Vec<T>>, mat2: &Vec<Vec<T>>) -> (r: Result<
        (usize, usize),
        &'static str,
    >)
        ensures
            r is Ok <==> multiply_shapes_ok(rows_view(mat1@), rows_view(mat2@)),
            r is Ok ==> r->Ok_0.0 == mat1@.len() && r->Ok_0.1 == mat2@[0]@.len(),
            has_empty_operand(rows_view(mat1@), rows_view(mat2@)) ==> r is Err
                && r->Err_0@ == "Input matrices cannot be empty"@,
            !has_empty_operand(rows_view(mat1@), rows_view(mat2@)) && (!uniform_rows(
                rows_view(mat1@),
            ) || !uniform_rows(rows_view(mat2@))) ==> r is Err
                && r->Err_0@ == "Rows in each matrix must have uniform length"@,
            !has_empty_operand(rows_view(mat1@), rows_view(mat2@)) && uniform_rows(
                rows_view(mat1@),
            ) && uniform_rows(rows_view(mat2@)) && mat1@[0]@.len() != mat2@.len() ==> r is Err
                && r->Err_0@ == "Number of columns in mat1 must be equal to the number of rows in mat2"@,
    {
        if mat1.len() == 0 || mat2.len() == 0 || mat1[0].len() == 0 || mat2[0].len() == 0 {
            return Err("Input matrices cannot be empty");
        }
        if !rows_are_uniform(mat1) || !rows_are_uniform(mat2) {
            return Err("Rows in each matrix must have uniform length");
        }
        if mat1[0].len() != mat2.len() {
            return Err("Number of columns in mat1 must be equal to the number of rows in mat2");
        }
        Ok((mat1.len(), mat2[0].len()))
    }
}

} // verus!
