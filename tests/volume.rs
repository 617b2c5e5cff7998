use mulch::voxels::{Radius, VoxelError, VoxelGrid, SIZE};

fn sample_volume() -> VoxelGrid {
    let mut g = VoxelGrid::new();
    g.paint_cube((2, 3, 0), (9, 5, 2)).unwrap();
    g.paint_cube((30, 30, 1), (40, 40, 30)).unwrap();
    g.paint_sphere((6, 6, 6), Radius { numerator: 5, denominator: 2 }).unwrap();
    g
}

fn other_volume() -> VoxelGrid {
    let mut g = VoxelGrid::new();
    g.paint_cube((4, 1, 0), (7, 8, 1)).unwrap();
    g.paint_sphere((20, 20, 20), Radius { numerator: 3, denominator: 1 }).unwrap();
    g
}

fn count_set(g: &VoxelGrid) -> usize {
    let mut n = 0;
    for z in 0..SIZE {
        for y in 0..SIZE {
            for x in 0..SIZE {
                n += g.read((x, y, z)).unwrap() as usize;
            }
        }
    }
    n
}

#[test]
fn new_volume_is_empty() {
    let g = VoxelGrid::new();
    assert_eq!(count_set(&g), 0);
    assert_eq!(g.read((63, 63, 63)), Ok(0));
}

#[test]
fn read_out_of_range_is_rejected() {
    let g = sample_volume();
    assert_eq!(g.read((64, 0, 0)), Err(VoxelError::CoordinateOutOfRange));
    assert_eq!(g.read((0, 64, 0)), Err(VoxelError::CoordinateOutOfRange));
    assert_eq!(g.read((0, 0, 64)), Err(VoxelError::CoordinateOutOfRange));
    assert_eq!(g.read((usize::MAX, 0, 0)), Err(VoxelError::CoordinateOutOfRange));
}

#[test]
fn union_and_difference_identities() {
    let a = sample_volume();
    let empty = VoxelGrid::new();

    let mut u = a.clone();
    u.add(&a);
    assert!(u == a);

    let mut d = a.clone();
    d.subtract(&a);
    assert!(d == empty);

    let mut ue = a.clone();
    ue.add(&empty);
    assert!(ue == a);

    let mut de = a.clone();
    de.subtract(&empty);
    assert!(de == a);
}

#[test]
fn union_is_commutative_and_associative() {
    let a = sample_volume();
    let b = other_volume();
    let mut c = VoxelGrid::new();
    c.paint_cube((0, 0, 0), (63, 0, 63)).unwrap();

    let mut ab = a.clone();
    ab.add(&b);
    let mut ba = b.clone();
    ba.add(&a);
    assert!(ab == ba);

    let mut ab_c = ab.clone();
    ab_c.add(&c);
    let mut bc = b.clone();
    bc.add(&c);
    let mut a_bc = a.clone();
    a_bc.add(&bc);
    assert!(ab_c == a_bc);
}

#[test]
fn difference_is_not_commutative() {
    let a = sample_volume();
    let b = other_volume();
    let mut ab = a.clone();
    ab.subtract(&b);
    let mut ba = b.clone();
    ba.subtract(&a);
    assert!(ab != ba);
}

#[test]
fn union_and_difference_act_per_voxel() {
    let a = sample_volume();
    let b = other_volume();
    let mut u = a.clone();
    u.add(&b);
    let mut d = a.clone();
    d.subtract(&b);
    for z in 0..SIZE {
        for y in 0..SIZE {
            for x in 0..SIZE {
                let va = a.read((x, y, z)).unwrap();
                let vb = b.read((x, y, z)).unwrap();
                assert_eq!(u.read((x, y, z)).unwrap(), va | vb);
                assert_eq!(d.read((x, y, z)).unwrap(), va & (1 - vb));
            }
        }
    }
}

#[test]
fn paint_cube_is_half_open_in_x_and_closed_in_y_z() {
    let mut g = VoxelGrid::new();
    assert_eq!(g.paint_cube((2, 3, 0), (9, 5, 2)), Ok(()));
    for z in 0..SIZE {
        for y in 0..SIZE {
            for x in 0..SIZE {
                let inside = (2..9).contains(&x) && (3..=5).contains(&y) && (0..=2).contains(&z);
                assert_eq!(g.read((x, y, z)).unwrap(), inside as u64);
            }
        }
    }
    assert_eq!(g.read((9, 3, 0)), Ok(0));
    assert_eq!(g.read((1, 3, 0)), Ok(0));
    assert_eq!(g.read((2, 2, 0)), Ok(0));
    assert_eq!(g.read((2, 6, 0)), Ok(0));
    assert_eq!(g.read((2, 3, 3)), Ok(0));
    assert_eq!(g.read((8, 5, 2)), Ok(1));
    assert_eq!(count_set(&g), 7 * 3 * 3);
}

#[test]
fn paint_cube_with_empty_ranges_paints_nothing() {
    let mut g = VoxelGrid::new();
    assert_eq!(g.paint_cube((5, 3, 3), (5, 9, 9)), Ok(()));
    assert_eq!(g.paint_cube((9, 3, 3), (5, 9, 9)), Ok(()));
    assert_eq!(g.paint_cube((0, 9, 0), (10, 3, 10)), Ok(()));
    assert_eq!(g.paint_cube((0, 0, 9), (10, 10, 3)), Ok(()));
    assert_eq!(count_set(&g), 0);
}

#[test]
fn paint_cube_out_of_range_is_rejected_and_changes_nothing() {
    let mut g = sample_volume();
    let before = g.clone();
    assert_eq!(g.paint_cube((0, 0, 0), (65, 3, 3)), Err(VoxelError::CoordinateOutOfRange));
    assert_eq!(g.paint_cube((65, 0, 0), (3, 3, 3)), Err(VoxelError::CoordinateOutOfRange));
    assert_eq!(g.paint_cube((0, 0, 0), (3, 64, 3)), Err(VoxelError::CoordinateOutOfRange));
    assert_eq!(g.paint_cube((0, 0, 70), (3, 3, 3)), Err(VoxelError::CoordinateOutOfRange));
    assert!(g == before);
}

#[test]
fn paint_cube_covers_the_last_voxels() {
    let mut g = VoxelGrid::new();
    assert_eq!(g.paint_cube((0, 63, 63), (64, 63, 63)), Ok(()));
    assert_eq!(g.read((62, 63, 63)), Ok(1));
    assert_eq!(g.read((63, 63, 63)), Ok(1));
    assert_eq!(count_set(&g), 64);

    let mut h = VoxelGrid::new();
    assert_eq!(h.paint_cube((60, 0, 0), (64, 0, 0)), Ok(()));
    assert_eq!(h.read((59, 0, 0)), Ok(0));
    assert_eq!(h.read((60, 0, 0)), Ok(1));
    assert_eq!(h.read((63, 0, 0)), Ok(1));
    assert_eq!(count_set(&h), 4);

    let mut full = VoxelGrid::new();
    assert_eq!(full.paint_cube((0, 0, 0), (64, 63, 63)), Ok(()));
    assert_eq!(count_set(&full), 64 * 64 * 64);
    assert_eq!(full.paint_cube((64, 0, 0), (64, 0, 0)), Ok(()));
}

#[test]
fn paint_sphere_sets_exactly_the_ball() {
    let mut g = VoxelGrid::new();
    assert_eq!(g.paint_sphere((6, 6, 6), Radius { numerator: 5, denominator: 2 }), Ok(()));
    let mut inside = 0;
    for dz in -4i64..=4 {
        for dy in -4i64..=4 {
            for dx in -4i64..=4 {
                let norm_sq = dx * dx + dy * dy + dz * dz;
                let v = g
                    .read(((6 + dx) as usize, (6 + dy) as usize, (6 + dz) as usize))
                    .unwrap();
                if 4 * norm_sq <= 25 {
                    assert_eq!(v, 1);
                    inside += 1;
                } else {
                    assert_eq!(v, 0);
                }
                let norm = (norm_sq as f64).sqrt();
                if norm > 3.0 {
                    assert_eq!(v, 0);
                }
            }
        }
    }
    assert_eq!(inside, 81);
    assert_eq!(count_set(&g), 81);
}

#[test]
fn paint_sphere_reaching_outside_is_rejected_and_changes_nothing() {
    let mut g = sample_volume();
    let before = g.clone();
    let one = Radius { numerator: 1, denominator: 1 };
    assert_eq!(g.paint_sphere((0, 5, 5), one), Err(VoxelError::CoordinateOutOfRange));
    assert_eq!(g.paint_sphere((5, 63, 5), one), Err(VoxelError::CoordinateOutOfRange));
    assert_eq!(
        g.paint_sphere((63, 63, 63), Radius { numerator: 20, denominator: 1 }),
        Err(VoxelError::CoordinateOutOfRange)
    );
    assert_eq!(
        g.paint_sphere((10, 10, 1), Radius { numerator: 5, denominator: 2 }),
        Err(VoxelError::CoordinateOutOfRange)
    );
    assert!(g == before);
}

#[test]
fn paint_sphere_touching_the_border_is_accepted() {
    let mut g = VoxelGrid::new();
    assert_eq!(g.paint_sphere((1, 1, 1), Radius { numerator: 1, denominator: 1 }), Ok(()));
    assert_eq!(g.read((0, 1, 1)), Ok(1));
    assert_eq!(g.read((1, 1, 1)), Ok(1));
    assert_eq!(count_set(&g), 7);

    let mut h = VoxelGrid::new();
    assert_eq!(h.paint_sphere((61, 61, 61), Radius { numerator: 5, denominator: 2 }), Ok(()));
    assert_eq!(h.read((63, 61, 61)), Ok(1));
    assert_eq!(count_set(&h), 81);
}

#[test]
fn paint_sphere_with_zero_radius_sets_the_center() {
    let mut g = VoxelGrid::new();
    g.paint_sphere((30, 31, 32), Radius { numerator: 0, denominator: 1 }).unwrap();
    assert_eq!(g.read((30, 31, 32)), Ok(1));
    assert_eq!(count_set(&g), 1);
}

#[test]
fn paint_sphere_with_center_out_of_range_is_rejected() {
    let mut g = sample_volume();
    let before = g.clone();
    let r = Radius { numerator: 2, denominator: 1 };
    assert_eq!(g.paint_sphere((64, 5, 5), r), Err(VoxelError::CoordinateOutOfRange));
    let zero = Radius { numerator: 0, denominator: 1 };
    assert_eq!(g.paint_sphere((70, 5, 5), zero), Err(VoxelError::CoordinateOutOfRange));
    assert_eq!(g.paint_sphere((5, 5, 100), r), Err(VoxelError::CoordinateOutOfRange));
    assert!(g == before);
}
