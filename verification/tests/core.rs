use gad::CoreAlgebra;
use gad::Error;
use gad::GradientStore;
use gad::Graph1;

#[test]
fn test_add() -> Result<(), Error> {
    let mut g = Graph1::new();
    let a = g.variable(3i32);
    let b = g.variable(2i32);
    let c = g.add(&a, &b)?;
    let gradients = g.evaluate_gradients_once(c.gid()?, 5i32)?;
    assert_eq!(*gradients.get(a.gid()?).unwrap(), 5);
    assert_eq!(*gradients.get(b.gid()?).unwrap(), 5);
    Ok(())
}

#[test]
fn test_add_all() -> Result<(), Error> {
    let mut g = Graph1::new();
    let a = g.variable(1i32);
    let b = g.variable(2i32);
    let c = g.constant(3i32);
    let d = g.add_all(&[&a, &b, &c])?;
    assert_eq!(*d.data(), 6i32);
    let gradients = g.evaluate_gradients_once(d.gid()?, 1)?;
    assert_eq!(*gradients.get(a.gid()?).unwrap(), 1);
    assert_eq!(*gradients.get(b.gid()?).unwrap(), 1);
    Ok(())
}

#[test]
fn test_add_all_empty_rejected() {
    let mut g = Graph1::new();
    let r = g.add_all(&[]);
    assert!(matches!(r, Err(Error::Empty { .. })));
}
