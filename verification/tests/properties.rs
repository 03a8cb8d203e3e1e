use gad::ArithAlgebra;
use gad::CoreAlgebra;
use gad::Error;
use gad::GenericGradientMap1;
use gad::GradientStore;
use gad::Graph1;

// A formula built entirely from constants never enters the tape: the result
// carries no handle and the tape size is unchanged.
#[test]
fn test_constants_never_recorded() -> Result<(), Error> {
    let mut g = Graph1::new();
    let x = g.variable(5i32);
    let before = g.len();

    let a = g.constant(2i32);
    let b = g.constant(3i32);
    let c = g.mul(&a, &b)?;
    let d = g.add(&c, &a)?;
    let e = g.neg(&d);
    assert_eq!(*e.data(), -8);
    assert_eq!(e.id(), None);
    assert_eq!(g.len(), before);
    assert!(matches!(e.gid(), Err(Error::MissingId { .. })));

    // A mixed node, by contrast, is recorded.
    let f = g.add(&x, &a)?;
    assert!(f.id().is_some());
    assert_eq!(g.len(), before + 1);
    Ok(())
}

// Fan-out accumulation: a variable consumed by `c` independent paths
// accumulates `c` times the seed.
#[test]
fn test_fanout_accumulation() -> Result<(), Error> {
    let mut g = Graph1::new();
    let x = g.variable(4i32);
    let s = g.add_all(&[&x, &x, &x, &x, &x])?;
    assert_eq!(*s.data(), 20);
    let gradients = g.evaluate_gradients(s.gid()?, 3)?;
    assert_eq!(*gradients.get(x.gid()?).unwrap(), 15);
    Ok(())
}

// Linearity in the seed: the same unmodified tape, run repeatedly, yields
// exactly `k` times the gradients of seed 1 when seeded with `k`.
#[test]
fn test_backward_is_linear_in_seed() -> Result<(), Error> {
    let mut g = Graph1::new();
    let x = g.variable(3i32);
    let y = g.variable(4i32);
    let p = g.mul(&x, &y)?;
    let q = g.add(&p, &x)?;

    let g1 = g.evaluate_gradients(q.gid()?, 1)?;
    let g5 = g.evaluate_gradients(q.gid()?, 5)?;
    assert_eq!(*g1.get(x.gid()?).unwrap(), 5);
    assert_eq!(*g5.get(x.gid()?).unwrap(), 25);
    assert_eq!(*g1.get(y.gid()?).unwrap(), 3);
    assert_eq!(*g5.get(y.gid()?).unwrap(), 15);
    Ok(())
}

// The consuming pass takes the tape by value: it computes the same
// gradients, and the tape cannot be touched again afterwards.
#[test]
fn test_consuming_backward() -> Result<(), Error> {
    let mut g = Graph1::new();
    let x = g.variable(3i32);
    let y = g.variable(4i32);
    let p = g.mul(&x, &y)?;
    let gradients = g.evaluate_gradients_once(p.gid()?, 2)?;
    assert_eq!(*gradients.get(x.gid()?).unwrap(), 8);
    assert_eq!(*gradients.get(y.gid()?).unwrap(), 6);
    Ok(())
}

// Accumulation store correctness: inserting `a` at a fresh handle and then
// accumulating `b` yields exactly the algebra's own `add(a, b)`.
#[test]
fn test_store_accumulation() -> Result<(), Error> {
    let mut g = Graph1::new();
    let x = g.variable(0i32);
    let id = x.gid()?;

    let mut eval = gad::Eval::default();
    let mut store = GenericGradientMap1::default();
    store.insert(id, 11);
    store.add_gradient(&mut eval, id, &31)?;
    assert_eq!(*store.get(id).unwrap(), 42);

    // Accumulating past the machine range reports overflow and keeps the
    // store unchanged.
    store.insert(id, i32::MAX);
    let r = store.add_gradient(&mut eval, id, &1);
    assert!(matches!(r, Err(Error::Overflow { .. })));
    assert_eq!(*store.get(id).unwrap(), i32::MAX);
    Ok(())
}

// Error scenarios: the handle of a constant is the missing-id error.
#[test]
fn test_missing_handle_of_constant() {
    let mut g = Graph1::new();
    let c = g.constant(7i32);
    assert!(matches!(c.gid(), Err(Error::MissingId { .. })));
}
