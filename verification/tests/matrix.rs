use gad::Check;
use gad::Dim4;
use gad::Error;
use gad::MatProp;
use gad::MatrixAlgebra;

#[test]
fn test_matprop() {
    let p = MatProp::new();
    assert!(p.transpose().transposed);
    assert_eq!(p.transpose().transpose(), p);
    assert!(p.conjugate().conjugated);
}

#[test]
fn test_matmul_shapes() -> Result<(), Error> {
    let mut c = Check::default();
    let a = Dim4::new([4, 3, 1, 1]);
    let b = Dim4::new([3, 5, 1, 1]);
    let r = c.matmul_nn(&a, &b)?;
    assert_eq!(r.get(0), 4);
    assert_eq!(r.get(1), 5);
    assert_eq!(r.get(2), 1);
    assert_eq!(r.get(3), 1);

    // Transposing the first operand swaps its extents first.
    let r = c.matmul(&b, &a, MatProp::new().transpose(), MatProp::new().transpose())?;
    assert_eq!(r.get(0), 5);
    assert_eq!(r.get(1), 4);

    let bad = c.matmul_nn(&a, &a);
    assert!(matches!(bad, Err(Error::Dimensions { .. })));
    Ok(())
}

#[test]
fn test_transpose_shapes() -> Result<(), Error> {
    let mut c = Check::default();
    let a = Dim4::new([4, 3, 1, 1]);
    let t = c.transpose(&a, false)?;
    assert_eq!(t.get(0), 3);
    assert_eq!(t.get(1), 4);

    let batched = Dim4::new([4, 3, 2, 1]);
    let bad = c.transpose(&batched, false);
    assert!(matches!(bad, Err(Error::Dimensions { .. })));
    Ok(())
}
