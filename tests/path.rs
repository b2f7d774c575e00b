use raytracer::path::{Path, PathStep, SurfaceEvent};

#[test]
fn zero_depth_is_black() {
    let p = Path::new(0);
    assert_eq!(p.begin(), PathStep::Black);
}

#[test]
fn positive_depth_traces_first_ray() {
    let p = Path::new(3);
    assert_eq!(p.depth(), 3);
    assert_eq!(p.begin(), PathStep::Trace);
}

#[test]
fn miss_ends_in_sky() {
    let mut p = Path::new(2);
    assert_eq!(p.advance(SurfaceEvent::Missed), PathStep::Sky);
    assert_eq!(p.depth(), 2);
}

#[test]
fn absorption_ends_black() {
    let mut p = Path::new(2);
    assert_eq!(p.advance(SurfaceEvent::Absorbed), PathStep::Black);
    assert_eq!(p.depth(), 2);
}

#[test]
fn scattering_spends_the_budget() {
    let mut p = Path::new(2);
    assert_eq!(p.advance(SurfaceEvent::Scattered), PathStep::Trace);
    assert_eq!(p.depth(), 1);
    assert_eq!(p.advance(SurfaceEvent::Scattered), PathStep::Black);
    assert_eq!(p.depth(), 0);
}

#[test]
fn always_scattering_path_traces_depth_rays() {
    let max_depth = 5u32;
    let mut p = Path::new(max_depth);
    let mut traced = 0u32;
    let mut step = p.begin();
    while step == PathStep::Trace {
        traced += 1;
        step = p.advance(SurfaceEvent::Scattered);
    }
    assert_eq!(step, PathStep::Black);
    assert_eq!(traced, max_depth);
}
