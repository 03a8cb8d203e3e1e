use gad::ConstArithAlgebra;
use gad::CoreAlgebra;
use gad::Error;
use gad::GradientStore;
use gad::Graph1;

#[test]
fn test_addc() -> Result<(), Error> {
    let mut g = Graph1::new();
    let a = g.variable(2i32);
    let b = g.addc(&a, 1u8);
    assert_eq!(*b.data(), 3);
    let gradients = g.evaluate_gradients_once(b.gid()?, 1)?;
    assert_eq!(*gradients.get(a.gid()?).unwrap(), 1);
    Ok(())
}

#[test]
fn test_mulc() -> Result<(), Error> {
    let mut g = Graph1::new();
    let a = g.variable(2i32);
    let b = g.mulc(&a, 3u8);
    assert_eq!(*b.data(), 6);
    let gradients = g.evaluate_gradients_once(b.gid()?, 1)?;
    assert_eq!(*gradients.get(a.gid()?).unwrap(), 3);
    Ok(())
}

#[test]
fn test_powc() -> Result<(), Error> {
    let mut g = Graph1::new();
    let a = g.variable(2i32);
    let b = g.powc(&a, 3u8);
    assert_eq!(*b.data(), 8);
    let gradients = g.evaluate_gradients_once(b.gid()?, 1)?;
    assert_eq!(*gradients.get(a.gid()?).unwrap(), 12);
    Ok(())
}

#[test]
fn test_powc_zero_exponent() -> Result<(), Error> {
    let mut g = Graph1::new();
    let a = g.variable(5i32);
    let b = g.powc(&a, 0u8);
    assert_eq!(*b.data(), 1);
    // The node depends on `a`, but the derivative of a zeroth power is zero.
    let gradients = g.evaluate_gradients_once(b.gid()?, 7)?;
    assert_eq!(*gradients.get(a.gid()?).unwrap(), 0);
    Ok(())
}
