use raytracer::rand48::{Rand48, MODULUS};

#[test]
fn unseeded_stream_matches_drand48() {
    let mut g = Rand48::new();
    assert_eq!(g.next_bits(), 111594912960769);
    assert_eq!(g.next_bits(), 236575599780728);
    assert_eq!(g.next_bits(), 99455269743139);
}

#[test]
fn first_unseeded_fraction() {
    let mut g = Rand48::new();
    let u = g.next_bits() as f64 / MODULUS as f64;
    assert!((u - 0.396464773760275).abs() < 1e-12);
}

#[test]
fn seeded_stream() {
    let mut g = Rand48::seeded(42);
    assert_eq!(g.next_bits(), 209565157052673);
    assert_eq!(g.next_bits(), 96461890741112);
}

#[test]
fn seeded_generators_replay() {
    let mut a = Rand48::seeded(7);
    let mut b = Rand48::seeded(7);
    for _ in 0..1000 {
        assert_eq!(a.next_bits(), b.next_bits());
    }
}

#[test]
fn draws_stay_below_modulus() {
    let mut g = Rand48::seeded(u32::MAX);
    for _ in 0..1000 {
        assert!(g.next_bits() < MODULUS);
    }
}
