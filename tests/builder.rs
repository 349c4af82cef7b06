use raytracer::builder::{grid_cells, material_kind, BuiltIn, MaterialKind};

#[test]
fn built_in_constructors() {
    assert_eq!(BuiltIn::default(), BuiltIn::Default);
    assert_eq!(BuiltIn::random(), BuiltIn::Random);
}

#[test]
fn image_sizes() {
    assert_eq!(BuiltIn::default().image_size(), (200, 100));
    assert_eq!(BuiltIn::random().image_size(), (1024, 512));
    assert_eq!(BuiltIn::random().camera_size(), (200, 100));
    assert_eq!(BuiltIn::default().camera_size(), (200, 100));
}

#[test]
fn material_rolls() {
    assert_eq!(material_kind(0), MaterialKind::Lambertian);
    assert_eq!(material_kind(79), MaterialKind::Lambertian);
    assert_eq!(material_kind(80), MaterialKind::Metal);
    assert_eq!(material_kind(94), MaterialKind::Metal);
    assert_eq!(material_kind(95), MaterialKind::Dielectric);
    assert_eq!(material_kind(99), MaterialKind::Dielectric);
}

#[test]
fn grid_walk() {
    let cells = grid_cells();
    assert_eq!(cells.len(), 484);
    assert_eq!(cells[0], (-11, -11));
    assert_eq!(cells[1], (-11, -10));
    assert_eq!(cells[21], (-11, 10));
    assert_eq!(cells[22], (-10, -11));
    assert_eq!(cells[483], (10, 10));
}
