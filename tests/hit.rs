use rtwasm::hit::{first_root, nearest_hit, Roots};

fn roots(near: u32, far: u32) -> Option<Roots> {
    Some(Roots { near, far })
}

#[test]
fn near_root_is_preferred() {
    assert_eq!(first_root(roots(10, 20), 0, 100), Some(10));
}

#[test]
fn far_root_when_near_is_behind() {
    assert_eq!(first_root(roots(10, 20), 10, 100), Some(20));
    assert_eq!(first_root(roots(10, 20), 15, 100), Some(20));
}

#[test]
fn bounds_are_strict() {
    assert_eq!(first_root(roots(10, 20), 10, 20), None);
    assert_eq!(first_root(roots(10, 20), 0, 10), None);
    assert_eq!(first_root(roots(10, 20), 0, 11), Some(10));
}

#[test]
fn a_missed_surface_has_no_root() {
    assert_eq!(first_root(None, 0, u32::MAX), None);
}

#[test]
fn nearest_of_two_overlapping_surfaces() {
    // the farther surface first in the scene, the nearer second
    let scene = vec![roots(40, 80), roots(30, 60)];
    assert_eq!(nearest_hit(&scene, 5, 1000), Some((1, 30)));
    let scene = vec![roots(30, 60), roots(40, 80)];
    assert_eq!(nearest_hit(&scene, 5, 1000), Some((0, 30)));
}

#[test]
fn nearest_from_inside_a_surface() {
    // the ray starts inside the first surface, whose near root is behind it
    let scene = vec![roots(2, 50), roots(30, 40)];
    assert_eq!(nearest_hit(&scene, 5, 1000), Some((1, 30)));
}

#[test]
fn equally_near_hits_go_to_the_first_surface() {
    let scene = vec![None, roots(30, 60), roots(30, 40)];
    assert_eq!(nearest_hit(&scene, 5, 1000), Some((1, 30)));
}

#[test]
fn empty_or_missed_scene_reports_nothing() {
    assert_eq!(nearest_hit(&vec![], 0, 1000), None);
    assert_eq!(nearest_hit(&vec![None, roots(1, 2), roots(2000, 3000)], 5, 1000), None);
}
