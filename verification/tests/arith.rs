use gad::ArithAlgebra;
use gad::CoreAlgebra;
use gad::Error;
use gad::GradientStore;
use gad::Graph1;

#[test]
fn test_zero() -> Result<(), Error> {
    let mut g = Graph1::new();
    let a = g.variable(3i32);
    let b = g.zeros(&a);
    assert_eq!(*b.data(), 0);
    assert_eq!(b.id(), None);
    Ok(())
}

#[test]
fn test_one() -> Result<(), Error> {
    let mut g = Graph1::new();
    let a = g.variable(3i32);
    let b = g.ones(&a);
    assert_eq!(*b.data(), 1);
    assert_eq!(b.id(), None);
    Ok(())
}

#[test]
fn test_neg() -> Result<(), Error> {
    let mut g = Graph1::new();
    let a = g.variable(3i32);
    let b = g.neg(&a);
    assert_eq!(*b.data(), -3);
    let gradients = g.evaluate_gradients_once(b.gid()?, 1)?;
    assert_eq!(*gradients.get(a.gid()?).unwrap(), -1);
    Ok(())
}

#[test]
fn test_sub() -> Result<(), Error> {
    let mut g = Graph1::new();
    let a = g.variable(1i32);
    let b = g.variable(2i32);
    let c = g.sub(&a, &b)?;
    assert_eq!(*c.data(), -1);
    let gradients = g.evaluate_gradients_once(c.gid()?, 1)?;
    assert_eq!(*gradients.get(a.gid()?).unwrap(), 1);
    assert_eq!(*gradients.get(b.gid()?).unwrap(), -1);
    Ok(())
}

#[test]
fn test_mul() -> Result<(), Error> {
    let mut g = Graph1::new();
    let a = g.variable(1i32);
    let b = g.variable(2i32);
    let c = g.mul(&a, &b)?;
    assert_eq!(*c.data(), 2);
    let gradients = g.evaluate_gradients_once(c.gid()?, 1)?;
    assert_eq!(*gradients.get(a.gid()?).unwrap(), 2);
    assert_eq!(*gradients.get(b.gid()?).unwrap(), 1);
    Ok(())
}

#[test]
fn test_mul_overflow_reported() {
    let mut g = Graph1::new();
    let a = g.variable(i32::MAX);
    let b = g.variable(2i32);
    let r = g.mul(&a, &b);
    assert!(matches!(r, Err(Error::Overflow { .. })));
}
