use rust_nn::arithm_functions::ArithmeticFunctions;

#[test]
fn it_works() {
    let result = 2 + 2;
    assert_eq!(result, 4);
}

#[test]
fn test_compute_factorial() {
    let af = ArithmeticFunctions;

    // Test with a valid input
    assert_eq!(af.compute_factorial(5), Ok(120));

    // Test with n = 0
    assert_eq!(af.compute_factorial(0), Ok(1));

    // Test with n = 1
    assert_eq!(af.compute_factorial(1), Ok(1));

    // Test with n > 20
    assert_eq!(
        af.compute_factorial(25),
        Err("Input value is too large for factorial calculation")
    );
}

#[test]
fn lib_test_compute_factorial() {
    let af = ArithmeticFunctions;
    assert_eq!(af.compute_factorial(5), Ok(120));
    assert_eq!(af.compute_factorial(0), Ok(1));
}

#[test]
fn test_compute_ipow() {
    let af = ArithmeticFunctions;

    // Test with valid inputs
    assert_eq!(af.compute_ipow(2, 3), Some(8));

    // Test with potential overflow
    assert_eq!(af.compute_ipow(10, 10), None);
}

#[test]
fn test_compute_transpose() {
    let af = ArithmeticFunctions;

    // Test with a valid matrix
    let matrix: Vec<Vec<f64>> = vec![vec![1.0, 2.0, 3.0], vec![4.0, 5.0, 6.0]];
    let result = af.compute_transpose(&matrix);
    assert_eq!(result, vec![vec![1.0, 4.0], vec![2.0, 5.0], vec![3.0, 6.0]]);

    // Test with an empty matrix
    let empty_matrix: Vec<Vec<f64>> = vec![];
    assert_eq!(af.compute_transpose(&empty_matrix), Vec::<Vec<f64>>::new());

    // Test with a matrix with empty rows
    let matrix_with_empty_rows: Vec<Vec<f64>> = vec![vec![1.0, 2.0, 3.0], vec![]];
    assert_eq!(
        af.compute_transpose(&matrix_with_empty_rows),
        Vec::<Vec<f64>>::new()
    );
}

#[test]
fn lib_test_compute_transpose() {
    let af = ArithmeticFunctions;
    let matrix = vec![vec![1.0, 2.0], vec![3.0, 4.0]];
    let result = af.compute_transpose(&matrix);
    let expected = vec![vec![1.0, 3.0], vec![2.0, 4.0]];
    assert_eq!(result, expected);
}

#[test]
fn factorial_largest_representable() {
    let af = ArithmeticFunctions;
    assert_eq!(af.compute_factorial(20), Ok(2432902008176640000));
    assert_eq!(
        af.compute_factorial(21),
        Err("Input value is too large for factorial calculation")
    );
}

#[test]
fn ipow_edge_cases() {
    let af = ArithmeticFunctions;
    // Anything to the zeroth power is one
    assert_eq!(af.compute_ipow(0, 0), Some(1));
    assert_eq!(af.compute_ipow(-7, 0), Some(1));
    // A negative base may reach the most negative representable value
    assert_eq!(af.compute_ipow(-2, 31), Some(i32::MIN));
    assert_eq!(af.compute_ipow(2, 31), None);
    // A unit base never overflows
    assert_eq!(af.compute_ipow(1, 1_000_000), Some(1));
    assert_eq!(af.compute_ipow(-1, 5), Some(-1));
}

#[test]
fn transpose_twice_restores_matrix() {
    let af = ArithmeticFunctions;
    let matrix: Vec<Vec<f64>> = vec![vec![1.5, -2.0, 0.25], vec![4.0, 5.0, -6.5]];
    let back = af.compute_transpose(&af.compute_transpose(&matrix));
    assert_eq!(back, matrix);
}

#[test]
fn transpose_integer_matrix() {
    let af = ArithmeticFunctions;
    let matrix: Vec<Vec<i64>> = vec![vec![1, 2], vec![3, 4], vec![5, 6]];
    let result = af.compute_transpose(&matrix);
    assert_eq!(result, vec![vec![1, 3, 5], vec![2, 4, 6]]);
}
