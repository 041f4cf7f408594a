//! Tests of the spatial hash and its traversals: bucket placement, counts,
//! traversal order, and region windows.

use libphysics::fixed::ONE;
use libphysics::particle::Particle;
use libphysics::spatial_hash::SpatialHash;
use libphysics::spatial_hash_iter::SpatialHashIter;
use libphysics::vector_2::vec2;

fn total_entries(hash: &SpatialHash) -> usize {
    let mut total = 0;
    for cell in hash.cells.iter() {
        total += cell.len();
    }
    total
}

#[test]
fn particle_lands_in_the_cell_of_its_floored_position() {
    let mut hash = SpatialHash::new(8, 8);
    // (2.5, 3.5) floors to cell (2, 3), flat index 2 + 3 * 8.
    hash.add_particle(0, vec2(2 * ONE + ONE / 2, 3 * ONE + ONE / 2));
    assert_eq!(hash.cells[2 + 3 * 8], vec![0]);
    assert_eq!(total_entries(&hash), 1);
}

#[test]
fn grid_consistency_after_add_particles() {
    let mut hash = SpatialHash::new(8, 8);
    let batch = vec![
        Particle::new(vec2(0, 0)),
        Particle::new(vec2(7 * ONE + 65535, 7 * ONE + 65535)),
        Particle::new(vec2(3 * ONE, 3 * ONE)),
        Particle::new(vec2(3 * ONE + 100, 3 * ONE + 200)),
    ];
    hash.add_particles(&batch);
    assert_eq!(hash.cells[0], vec![0]);
    assert_eq!(hash.cells[7 + 7 * 8], vec![1]);
    // Two particles share cell (3, 3), in insertion order.
    assert_eq!(hash.cells[3 + 3 * 8], vec![2, 3]);
    assert_eq!(total_entries(&hash), batch.len());
}

#[test]
fn clear_empties_every_cell() {
    let mut hash = SpatialHash::new(4, 4);
    let batch = vec![Particle::new(vec2(ONE, ONE)), Particle::new(vec2(2 * ONE, 3 * ONE))];
    hash.add_particles(&batch);
    assert_eq!(total_entries(&hash), 2);
    hash.clear();
    assert_eq!(total_entries(&hash), 0);
    for cell in hash.cells.iter() {
        assert!(cell.is_empty());
    }
}

#[test]
fn full_traversal_visits_every_cell_row_major() {
    let hash = SpatialHash::new(3, 3);
    let mut it = SpatialHashIter::new(&hash);
    let mut visited: Vec<(usize, usize)> = Vec::new();
    while it.next() {
        visited.push((it.x, it.y));
    }
    assert_eq!(
        visited,
        vec![
            (0, 0),
            (1, 0),
            (2, 0),
            (0, 1),
            (1, 1),
            (2, 1),
            (0, 2),
            (1, 2),
            (2, 2)
        ]
    );
}

#[test]
fn region_window_is_clipped_at_the_low_corner() {
    let hash = SpatialHash::new(8, 8);
    let mut it = SpatialHashIter::new(&hash);
    assert!(it.next()); // cursor on (0, 0)
    let mut region = SpatialHashIter::new_region(&it, 2);
    let mut count = 0;
    while region.next() {
        assert!(region.x <= 2 && region.y <= 2);
        count += 1;
    }
    assert_eq!(count, 9);
}

#[test]
fn region_window_is_clipped_at_the_high_corner() {
    let hash = SpatialHash::new(3, 3);
    let mut it = SpatialHashIter::new(&hash);
    for _ in 0..9 {
        assert!(it.next());
    }
    assert_eq!((it.x, it.y), (2, 2));
    let mut region = SpatialHashIter::new_region(&it, 1);
    let mut count = 0;
    while region.next() {
        assert!(region.x >= 1 && region.y >= 1);
        count += 1;
    }
    assert_eq!(count, 4);
}

#[test]
fn region_includes_the_center_cell() {
    let hash = SpatialHash::new(8, 8);
    let mut it = SpatialHashIter::new(&hash);
    for _ in 0..(8 * 3 + 4) {
        assert!(it.next());
    }
    assert_eq!((it.x, it.y), (3, 3));
    let mut region = SpatialHashIter::new_region(&it, 2);
    let mut saw_center = false;
    while region.next() {
        if region.x == 3 && region.y == 3 {
            saw_center = true;
        }
    }
    assert!(saw_center);
}
