use gad::AnalyticAlgebra;
use gad::ArithAlgebra;
use gad::Check;
use gad::CompareAlgebra;
use gad::ConstArithAlgebra;
use gad::CoreAlgebra;
use gad::Dim4;
use gad::Error;
use gad::Eval;

#[test]
fn test_eval_scalar_ops() -> Result<(), Error> {
    let mut e = Eval::default();
    assert_eq!(e.variable(5i32), 5);
    assert_eq!(e.constant(7i32), 7);
    assert_eq!(e.add(&2, &3)?, 5);
    assert_eq!(e.add_all(&[&1, &2, &3])?, 6);
    assert_eq!(e.sub(&2, &5)?, -3);
    assert_eq!(e.mul(&4, &6)?, 24);
    assert_eq!(e.neg(&9), -9);
    assert_eq!(e.zeros(&42), 0);
    assert_eq!(e.ones(&42), 1);
    assert!(matches!(e.add(&i32::MAX, &1), Err(Error::Overflow { .. })));
    assert!(matches!(e.sub(&i32::MIN, &1), Err(Error::Overflow { .. })));
    Ok(())
}

#[test]
fn test_eval_compare_ops() -> Result<(), Error> {
    let mut e = Eval::default();
    assert_eq!(e.min(&3, &5)?, 3);
    assert_eq!(e.max(&3, &5)?, 5);
    assert_eq!(e.abs(&-4), 4);
    assert_eq!(e.sign(&-4), -1);
    assert_eq!(e.sign(&0), 1);
    assert_eq!(e.relu(&-4), 0);
    assert_eq!(e.relu(&4), 4);
    assert_eq!(e.select_argmax(&2, &1, Some(&10), Some(&20))?, 10);
    assert_eq!(e.select_argmax(&1, &2, Some(&10), None)?, 0);
    Ok(())
}

#[test]
fn test_eval_const_ops() {
    let mut e = Eval::default();
    assert_eq!(e.setc(&9, 4u8), 4);
    assert_eq!(e.addc(&9, 4u8), 13);
    assert_eq!(e.mulc(&9, 4u8), 36);
    assert_eq!(e.powc(&2, 10u8), 1024);
    assert_eq!(e.powc(&-3, 3u8), -27);
    assert_eq!(e.powc(&5, 0u8), 1);
}

#[test]
fn test_check_scalar_ops() -> Result<(), Error> {
    let mut c = Check::default();
    c.variable(5i32);
    assert!(c.add(&(), &()).is_ok());
    assert!(c.min(&(), &()).is_ok());
    assert!(c.div(&(), &()).is_ok());
    c.powc(&(), 3u8);
    Ok(())
}

#[test]
fn test_check_shape_ops() -> Result<(), Error> {
    let mut c = Check::default();
    let a = Dim4::new([4, 3, 1, 1]);
    let b = Dim4::new([3, 4, 1, 1]);
    assert_eq!(c.sub(&a, &a)?, a);
    assert!(matches!(c.mul(&a, &b), Err(Error::Dimensions { .. })));
    assert_eq!(c.neg(&a), a);
    assert_eq!(c.max(&a, &a)?, a);
    assert!(matches!(c.min(&a, &b), Err(Error::Dimensions { .. })));
    assert_eq!(c.exp(&a), a);
    assert!(matches!(c.div(&a, &b), Err(Error::Dimensions { .. })));
    assert_eq!(c.mulc(&a, 3u8), a);
    assert_eq!(c.select_argmax(&a, &a, Some(&a), None)?, a);
    assert!(matches!(c.select_argmax(&a, &b, None, None), Err(Error::Dimensions { .. })));
    Ok(())
}

#[test]
fn test_dim4_elements() {
    let a = Dim4::new([4, 3, 2, 1]);
    assert_eq!(a.elements(), 24);
    assert_eq!(a.get(0), 4);
    assert_eq!(a.get(3), 1);
}
