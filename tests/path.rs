use raytracer::path::{shade, Shade, MAX_DEPTH};

#[test]
fn escaped_ray_sees_sky() {
    assert_eq!(shade(0, false), Shade::Sky);
    assert_eq!(shade(MAX_DEPTH, false), Shade::Sky);
    assert_eq!(shade(u32::MAX, false), Shade::Sky);
}

#[test]
fn shallow_hit_scatters_one_level_deeper() {
    assert_eq!(shade(0, true), Shade::Scatter { next: 1 });
    assert_eq!(shade(49, true), Shade::Scatter { next: 50 });
}

#[test]
fn deep_hit_is_black() {
    assert_eq!(MAX_DEPTH, 50);
    assert_eq!(shade(50, true), Shade::Dark);
    assert_eq!(shade(51, true), Shade::Dark);
    assert_eq!(shade(u32::MAX, true), Shade::Dark);
}

#[test]
fn path_from_zero_traces_at_most_fifty_one_rays() {
    let mut depth = 0u32;
    let mut rays = 1u32;
    while let Shade::Scatter { next } = shade(depth, true) {
        depth = next;
        rays += 1;
    }
    assert_eq!(rays, MAX_DEPTH + 1);
}
