use gad::ArithAlgebra;
use gad::CoreAlgebra;
use gad::Error;
use gad::GradientStore;
use gad::Graph1;
use gad::GraphN;

#[test]
fn test_gradient_simple() -> Result<(), Error> {
    let mut g = Graph1::new();

    let a = g.variable(3i32);
    let c = {
        let x = g.mul(&a, &a)?;
        g.add(&a, &x)?
    };
    assert_eq!(*c.data(), 3 * 3 + 3);

    let (a, c) = (a.gid()?, c.gid()?);
    let g1 = g.clone().evaluate_gradients_once(c, 1)?;
    let g2 = g.evaluate_gradients_once(c, 2)?;

    assert_eq!(*g1.get(a).unwrap(), 7);
    assert_eq!(*g2.get(a).unwrap(), 14);
    Ok(())
}

// z = x * y^2 at x = 2, y = 3, differentiated three times over: the same
// worked example as the classic higher-order one, with integer data.
#[test]
fn test_higher_order_gradients() -> Result<(), Error> {
    let mut g = GraphN::new();

    let x = g.variable(2i32);
    let y = g.variable(3i32);
    let z = {
        let h = g.mul(&x, &y)?;
        g.mul(&h, &y)?
    };
    assert_eq!(*z.data(), 18);

    let (x, y, z) = (x.gid()?, y.gid()?, z.gid()?);

    let dz = g.constant(1i32);
    let dz_d = g.compute_gradients(z, dz)?;
    let dz_dx = *dz_d.get(x).unwrap();
    let dz_dy = *dz_d.get(y).unwrap();
    assert_eq!(*dz_dx.data(), 9); // y^2
    assert_eq!(*dz_dy.data(), 12); // 2xy

    let ddz = g.constant(1i32);
    let ddz_dxd = g.compute_gradients(dz_dx.gid()?, ddz.clone())?;
    let ddz_dyd = g.compute_gradients(dz_dy.gid()?, ddz)?;

    // d2z/dx2 has no entry at all: no dependency edge exists.
    assert!(ddz_dxd.get(x).is_none());
    assert_eq!(*ddz_dxd.get(y).unwrap().data(), 6); // 2y
    assert_eq!(*ddz_dyd.get(x).unwrap().data(), 6); // 2y
    assert_eq!(*ddz_dyd.get(y).unwrap().data(), 4); // 2x

    let dddz = g.constant(1i32);
    let ddz_dxdy = *ddz_dxd.get(y).unwrap();
    let dddz_dxdyd = g.compute_gradients(ddz_dxdy.gid()?, dddz)?;
    assert!(dddz_dxdyd.get(x).is_none());
    assert_eq!(*dddz_dxdyd.get(y).unwrap().data(), 2);
    Ok(())
}

#[test]
fn test_reusable_backward_leaves_tape_intact() -> Result<(), Error> {
    let mut g = Graph1::new();
    let a = g.variable(5i32);
    let b = g.variable(7i32);
    let c = g.mul(&a, &b)?;
    let before = g.len();

    // Two reusable passes with different seeds against the same tape.
    let g1 = g.evaluate_gradients(c.gid()?, 1)?;
    let g2 = g.evaluate_gradients(c.gid()?, 3)?;
    assert_eq!(g.len(), before);
    assert_eq!(*g1.get(a.gid()?).unwrap(), 7);
    assert_eq!(*g2.get(a.gid()?).unwrap(), 21);
    assert_eq!(*g1.get(b.gid()?).unwrap(), 5);
    assert_eq!(*g2.get(b.gid()?).unwrap(), 15);
    Ok(())
}

#[test]
fn test_foreign_handle_is_missing_node() -> Result<(), Error> {
    let mut other = Graph1::new();
    let a = other.variable(1i32);
    let b = other.variable(2i32);
    let c = other.mul(&a, &b)?;

    // A handle from a bigger tape does not resolve in a smaller one.
    let mut g = Graph1::new();
    let _ = g.variable(1i32);
    let r = g.evaluate_gradients(c.gid()?, 1);
    assert!(matches!(r, Err(Error::MissingNode { .. })));
    Ok(())
}
