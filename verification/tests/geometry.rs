use frustum::AABB;
use frustum::ConvexHull;
use frustum::IntersectionState;
use frustum::Mat4;
use frustum::Plane;
use frustum::TransformError;
use frustum::Vec3;

fn box_hull(half: i64) -> ConvexHull {
    // The axis-aligned cube [-half, half]^3 as six half-space planes.
    let mut h = ConvexHull::new();
    h.push_plane(1, 0, 0, -half);
    h.push_plane(-1, 0, 0, -half);
    h.push_plane(0, 1, 0, -half);
    h.push_plane(0, -1, 0, -half);
    h.push_plane(0, 0, 1, -half);
    h.push_plane(0, 0, -1, -half);
    h
}

#[test]
fn distance_of_unit_normal_plane_is_euclidean() {
    let pl = Plane { normal: Vec3 { x: 0, y: 0, z: 1 }, d: -5 };
    assert_eq!(pl.distance(&Vec3 { x: 3, y: 4, z: 5 }), 0);
    assert_eq!(pl.distance(&Vec3 { x: 0, y: 0, z: 7 }), 2);
    assert_eq!(pl.distance(&Vec3 { x: 1, y: 2, z: 0 }), -5);
}

#[test]
fn negate_twice_restores_plane() {
    let mut pl = Plane { normal: Vec3 { x: 1, y: -2, z: 3 }, d: 4 };
    pl.negate();
    assert_eq!(pl, Plane { normal: Vec3 { x: -1, y: 2, z: -3 }, d: -4 });
    pl.negate();
    assert_eq!(pl, Plane { normal: Vec3 { x: 1, y: -2, z: 3 }, d: 4 });
}

#[test]
fn empty_hull_holds_everything() {
    let h = ConvexHull::new();
    assert!(h.contains_point(&Vec3 { x: 1000, y: -1000, z: 0 }));
    let bb = AABB::from_i64(-5, -5, -5, 5, 5, 5);
    assert!(h.contains_aabb(&bb));
    assert!(h.contains_sphere(&Vec3 { x: 0, y: 0, z: 0 }, 10));
    assert_eq!(h.intersect_aabb(&bb), IntersectionState::Inside);
    assert_eq!(h.intersect_sphere(&Vec3 { x: 9, y: 9, z: 9 }, 3), IntersectionState::Inside);
}

#[test]
fn set_from_points_bounds_three_points() {
    let mut bb = AABB::default();
    let pts = [
        Vec3 { x: 0, y: 0, z: 0 },
        Vec3 { x: 2, y: 2, z: 2 },
        Vec3 { x: 1, y: -1, z: 3 },
    ];
    bb.set_from_points(&pts);
    assert_eq!(bb.min, Vec3 { x: 0, y: -1, z: 0 });
    assert_eq!(bb.max, Vec3 { x: 2, y: 2, z: 3 });
}

#[test]
fn set_from_points_of_nothing_is_empty_sentinel() {
    let mut bb = AABB::from_i64(1, 2, 3, 4, 5, 6);
    let pts: [Vec3; 0] = [];
    bb.set_from_points(&pts);
    assert_eq!(bb.min, Vec3 { x: i64::MAX, y: i64::MAX, z: i64::MAX });
    assert_eq!(bb.max, Vec3 { x: i64::MIN, y: i64::MIN, z: i64::MIN });
}

#[test]
fn aabb_transform_identity_keeps_corners() {
    let mut bb = AABB::from_i64(1, 2, 3, 4, 5, 6);
    bb.transform(&Mat4::identity());
    assert_eq!(bb.min, Vec3 { x: 1, y: 2, z: 3 });
    assert_eq!(bb.max, Vec3 { x: 4, y: 5, z: 6 });
}

#[test]
fn aabb_transform_translation_shifts_corners() {
    let mut bb = AABB::from_i64(1, 2, 3, 4, 5, 6);
    bb.transform(&Mat4::translation(10, 20, 30));
    assert_eq!(bb.min, Vec3 { x: 11, y: 22, z: 33 });
    assert_eq!(bb.max, Vec3 { x: 14, y: 25, z: 36 });
}

#[test]
fn aabb_transform_scale_and_flip() {
    // Diagonal (2, -1, 1): a negative scale swaps which corner is smallest.
    let mut bb = AABB::from_i64(1, 2, 3, 4, 5, 6);
    let m = Mat4::from_slice(&[2, 0, 0, 0, 0, -1, 0, 0, 0, 0, 1, 0, 0, 0, 0, 1]);
    bb.transform(&m);
    assert_eq!(bb.min, Vec3 { x: 2, y: -5, z: 3 });
    assert_eq!(bb.max, Vec3 { x: 8, y: -2, z: 6 });
}

#[test]
fn aabb_contains_point_is_inclusive() {
    let bb = AABB::from_i64(0, 0, 0, 2, 2, 2);
    assert!(bb.contains_point(&Vec3 { x: 0, y: 2, z: 1 }));
    assert!(bb.contains_point(&Vec3 { x: 2, y: 2, z: 2 }));
    assert!(!bb.contains_point(&Vec3 { x: 3, y: 0, z: 0 }));
    assert!(!bb.contains_point(&Vec3 { x: 1, y: -1, z: 0 }));
}

#[test]
fn frustum_aabb_outside_intersection_inside() {
    let h = box_hull(10);
    let inside = AABB::from_i64(-1, -1, -1, 1, 1, 1);
    assert_eq!(h.intersect_aabb(&inside), IntersectionState::Inside);
    let outside = AABB::from_i64(11, -1, -1, 12, 1, 1);
    assert_eq!(h.intersect_aabb(&outside), IntersectionState::Outside);
    let straddling = AABB::from_i64(9, -1, -1, 11, 1, 1);
    assert_eq!(h.intersect_aabb(&straddling), IntersectionState::Intersection);
}

#[test]
fn contains_aabb_is_conservative() {
    let h = box_hull(10);
    let inside = AABB::from_i64(-1, -1, -1, 1, 1, 1);
    let outside = AABB::from_i64(11, -1, -1, 12, 1, 1);
    let straddling = AABB::from_i64(9, -1, -1, 11, 1, 1);
    assert!(h.contains_aabb(&inside));
    assert!(h.contains_aabb(&straddling));
    assert!(!h.contains_aabb(&outside));
}

#[test]
fn aabb_touching_boundary_counts_as_intersection_not_outside() {
    // The near corner sits exactly on the plane: distance 0 is not outside.
    let h = box_hull(10);
    let touching = AABB::from_i64(10, -1, -1, 12, 1, 1);
    assert_eq!(h.intersect_aabb(&touching), IntersectionState::Intersection);
}

#[test]
fn sphere_on_plane_surface_intersects() {
    let mut h = ConvexHull::new();
    h.push_plane(0, 0, 1, 0);
    assert_eq!(h.intersect_sphere(&Vec3 { x: 7, y: -3, z: 0 }, 5), IntersectionState::Intersection);
    assert!(h.contains_sphere(&Vec3 { x: 7, y: -3, z: 0 }, 5));
}

#[test]
fn sphere_fully_outside_and_fully_inside() {
    let mut h = ConvexHull::new();
    h.push_plane(0, 0, 1, 0);
    assert_eq!(h.intersect_sphere(&Vec3 { x: 0, y: 0, z: 7 }, 5), IntersectionState::Outside);
    assert!(!h.contains_sphere(&Vec3 { x: 0, y: 0, z: 7 }, 5));
    assert_eq!(h.intersect_sphere(&Vec3 { x: 0, y: 0, z: -7 }, 5), IntersectionState::Inside);
}

#[test]
fn hull_contains_point_boundary_is_inside() {
    let h = box_hull(10);
    assert!(h.contains_point(&Vec3 { x: 10, y: 10, z: 10 }));
    assert!(h.contains_point(&Vec3 { x: 0, y: 0, z: 0 }));
    assert!(!h.contains_point(&Vec3 { x: 11, y: 0, z: 0 }));
}

#[test]
fn plane_from_triangle_passes_through_points() {
    let mut pl = Plane::default();
    let p0 = Vec3 { x: 0, y: 0, z: 0 };
    let p1 = Vec3 { x: 1, y: 0, z: 0 };
    let p2 = Vec3 { x: 0, y: 1, z: 0 };
    pl.set_tri(&p0, &p1, &p2);
    assert_eq!(pl.normal, Vec3 { x: 0, y: 0, z: 1 });
    assert_eq!(pl.d, 0);
    assert_eq!(pl.distance(&p0), 0);
    assert_eq!(pl.distance(&p1), 0);
    assert_eq!(pl.distance(&p2), 0);
    assert_eq!(pl.distance(&Vec3 { x: 4, y: 4, z: 5 }), 5);
}

#[test]
fn line_crosses_plane_at_scaled_point() {
    let pl = Plane { normal: Vec3 { x: 0, y: 0, z: 1 }, d: -3 };
    let hit = pl.intersect_line(&Vec3 { x: 1, y: 2, z: 0 }, &Vec3 { x: 0, y: 0, z: 1 });
    assert_eq!(hit.w, 1);
    assert_eq!((hit.x, hit.y, hit.z), (1, 2, 3));
}

#[test]
fn plane_transform_by_translation_inverse_transpose() {
    // Moving points by +5 in x moves the plane x <= 10 to x <= 15; the
    // inverse transpose of that translation carries (1, 0, 0, -10) there.
    let mut pl = Plane { normal: Vec3 { x: 1, y: 0, z: 0 }, d: -10 };
    let inv_t = Mat4::from_slice(&[1, 0, 0, -5, 0, 1, 0, 0, 0, 0, 1, 0, 0, 0, 0, 1]);
    pl.transform(&inv_t);
    assert_eq!(pl.normal, Vec3 { x: 1, y: 0, z: 0 });
    assert_eq!(pl.d, -15);
}

#[test]
fn hull_transform_translation_preserves_containment() {
    let mut h = box_hull(10);
    let r = h.transform(&Mat4::translation(5, 0, 0));
    assert!(r.is_ok());
    // The region is now [-5, 15] x [-10, 10] x [-10, 10].
    assert!(h.contains_point(&Vec3 { x: 14, y: 0, z: 0 }));
    assert!(h.contains_point(&Vec3 { x: -5, y: 0, z: 0 }));
    assert!(!h.contains_point(&Vec3 { x: -6, y: 0, z: 0 }));
    assert!(!h.contains_point(&Vec3 { x: 16, y: 0, z: 0 }));
}

#[test]
fn hull_transform_mirror_keeps_orientation() {
    // A mirror has negative determinant; the planes must still face outward.
    let mut h = box_hull(10);
    let mirror = Mat4::from_slice(&[-1, 0, 0, 0, 0, 1, 0, 0, 0, 0, 1, 0, 0, 0, 0, 1]);
    let r = h.transform(&mirror);
    assert!(r.is_ok());
    assert!(h.contains_point(&Vec3 { x: 9, y: 0, z: 0 }));
    assert!(!h.contains_point(&Vec3 { x: 11, y: 0, z: 0 }));
}

#[test]
fn hull_transform_singular_matrix_is_refused() {
    let mut h = box_hull(10);
    let zero_row = Mat4::from_slice(&[1, 0, 0, 0, 0, 1, 0, 0, 0, 0, 0, 0, 0, 0, 0, 1]);
    let r = h.transform(&zero_row);
    assert_eq!(r, Err(TransformError::Singular));
    // The hull is untouched on failure.
    assert!(h.contains_point(&Vec3 { x: 10, y: 10, z: 10 }));
    assert!(!h.contains_point(&Vec3 { x: 11, y: 0, z: 0 }));
}

#[test]
fn hull_transform_shear_preserves_containment_of_mapped_points() {
    // Shear (x, y, z) -> (x + y, y, z); containment answers must track the
    // mapped points exactly.
    let mut sheared = box_hull(10);
    let shear = Mat4::from_slice(&[1, 0, 0, 0, 1, 1, 0, 0, 0, 0, 1, 0, 0, 0, 0, 1]);
    assert_eq!(sheared.transform(&shear), Ok(()));
    let plain = box_hull(10);
    let samples = [
        Vec3 { x: 10, y: 5, z: 0 },
        Vec3 { x: 11, y: 0, z: 0 },
        Vec3 { x: -10, y: -10, z: 3 },
        Vec3 { x: 0, y: 10, z: -10 },
        Vec3 { x: 7, y: -11, z: 2 },
    ];
    for p in samples {
        let mapped = Vec3 { x: p.x + p.y, y: p.y, z: p.z };
        assert_eq!(plain.contains_point(&p), sheared.contains_point(&mapped));
    }
}

#[test]
fn hull_transform_checked_rejects_unrepresentable_result() {
    let lim = frustum::vec3::LIMIT;
    let mut h = ConvexHull::new();
    h.push_plane(lim, 0, 0, 0);
    let big = Mat4::from_slice(&[lim, 0, 0, 0, 0, lim, 0, 0, 0, 0, lim, 0, 0, 0, 0, 1]);
    let r = h.transform_checked(&big);
    assert_eq!(r, Err(TransformError::OutOfRange));
    // Small transforms still go through the checked entry point.
    let mut g = box_hull(10);
    assert_eq!(g.transform_checked(&Mat4::translation(5, 0, 0)), Ok(()));
    assert!(g.contains_point(&Vec3 { x: 14, y: 0, z: 0 }));
}

#[test]
fn hull_copy_clear_and_push() {
    let mut h = ConvexHull::new();
    h.push_plane(0, 0, 1, 0);
    let snapshot = h.copy();
    h.clear();
    assert!(h.contains_point(&Vec3 { x: 0, y: 0, z: 99 }));
    assert!(!snapshot.contains_point(&Vec3 { x: 0, y: 0, z: 99 }));
    assert!(snapshot.contains_point(&Vec3 { x: 0, y: 0, z: -1 }));
}

#[test]
fn aabb_from_slice_reads_six_scalars() {
    let bb = AABB::from_slice(&[1, 2, 3, 4, 5, 6]);
    assert_eq!(bb.min, Vec3 { x: 1, y: 2, z: 3 });
    assert_eq!(bb.max, Vec3 { x: 4, y: 5, z: 6 });
}

#[test]
fn debug_dump_mentions_every_plane() {
    let mut h = ConvexHull::new();
    h.push_plane(1, 0, 0, -10);
    let s = h.debug_str();
    assert!(!s.is_empty());
}
