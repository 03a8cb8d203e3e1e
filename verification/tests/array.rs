use gad::ArrayAlgebra;
use gad::ArrayCompareAlgebra;
use gad::Check;
use gad::Dim4;
use gad::Error;
use gad::check_equal_dimensions;
use gad::check_equal_lengths;
use gad::check_reduced_dimensions;

#[test]
fn test_flat_and_moddims() -> Result<(), Error> {
    let mut c = Check::default();
    let a = Dim4::new([4, 3, 1, 1]);
    let f = c.flat(&a);
    assert_eq!(f.get(0), 12);
    assert_eq!(f.get(1), 1);

    let r = c.moddims(&a, Dim4::new([2, 6, 1, 1]))?;
    assert_eq!(r.get(0), 2);
    assert_eq!(r.get(1), 6);
    let bad = c.moddims(&a, Dim4::new([5, 2, 1, 1]));
    assert!(matches!(bad, Err(Error::Dimensions { .. })));
    Ok(())
}

#[test]
fn test_tile_and_sum() -> Result<(), Error> {
    let mut c = Check::default();
    let a = Dim4::new([1, 3, 1, 1]);
    let r = c.tile_as(&a, Dim4::new([4, 3, 1, 1]))?;
    assert_eq!(r.get(0), 4);
    let bad = c.tile_as(&a, Dim4::new([4, 4, 1, 1]));
    assert!(matches!(bad, Err(Error::Dimensions { .. })));

    let big = Dim4::new([4, 3, 1, 1]);
    let s = c.sum_as(&big, Dim4::new([1, 3, 1, 1]))?;
    assert_eq!(s.get(0), 1);
    let bad = c.sum_as(&big, Dim4::new([2, 3, 1, 1]));
    assert!(matches!(bad, Err(Error::Dimensions { .. })));
    Ok(())
}

#[test]
fn test_scalar_and_dot() -> Result<(), Error> {
    let mut c = Check::default();
    let one = Dim4::new([1, 1, 1, 1]);
    let a = Dim4::new([4, 3, 1, 1]);
    assert!(c.as_scalar(&one).is_ok());
    assert!(matches!(c.as_scalar(&a), Err(Error::Dimensions { .. })));
    assert!(c.dot(&a, &a).is_ok());
    assert!(matches!(c.dot(&a, &one), Err(Error::Dimensions { .. })));
    c.norm2(&a);
    Ok(())
}

#[test]
fn test_reductions() -> Result<(), Error> {
    let mut c = Check::default();
    let a = Dim4::new([4, 3, 1, 1]);
    let r = c.max_as(&a, Dim4::new([1, 3, 1, 1]))?;
    assert_eq!(r.get(0), 1);
    let r = c.argmax_as(&a, Dim4::new([4, 1, 1, 1]))?;
    assert_eq!(r.get(0), 4);
    let r = c.softmax_as(&a, Dim4::new([1, 1, 1, 1]))?;
    assert_eq!(r.get(0), 4);
    let bad = c.max_as(&a, Dim4::new([2, 3, 1, 1]));
    assert!(matches!(bad, Err(Error::ReducedDimensions { .. })));
    Ok(())
}

#[test]
fn test_dimension_checks() {
    let a = Dim4::new([4, 3, 1, 1]);
    let b = Dim4::new([4, 3, 1, 1]);
    let c = Dim4::new([3, 4, 1, 1]);
    assert!(check_equal_dimensions("t", &[&a, &b]).is_ok());
    assert!(matches!(check_equal_dimensions("t", &[&a, &c]), Err(Error::Dimensions { .. })));
    assert!(matches!(check_equal_dimensions("t", &[]), Err(Error::Empty { .. })));

    assert_eq!(check_equal_lengths("t", &[3, 3, 3]).unwrap(), 3);
    assert!(matches!(check_equal_lengths("t", &[3, 4]), Err(Error::Lengths { .. })));
    assert!(matches!(check_equal_lengths("t", &[]), Err(Error::Empty { .. })));

    assert!(check_reduced_dimensions("t", a, Dim4::new([1, 3, 1, 1])).is_ok());
    assert!(matches!(
        check_reduced_dimensions("t", a, Dim4::new([2, 3, 1, 1])),
        Err(Error::ReducedDimensions { .. })
    ));
}
