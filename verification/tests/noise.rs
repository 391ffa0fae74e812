use perlin_noise::lattice::{corner_gradients, unit_cell, CornerGradients, Gradient};
use perlin_noise::permutation_table::PermutationTable;
use rand::Rng;
use rand::SeedableRng;
use rand_xoshiro::SplitMix64;

const REFERENCE_SEED: u64 = 0x5EED;

fn fade(t: f64) -> f64 {
    t * t * t * (t * (t * 6.0 - 15.0) + 10.0)
}

fn lerp(t: f64, a: f64, b: f64) -> f64 {
    a + t * (b - a)
}

fn influence(gradient: Gradient, dx: f64, dy: f64) -> f64 {
    f64::from(gradient.x()) * dx + f64::from(gradient.y()) * dy
}

fn perlin2d(x: f64, y: f64, table: &PermutationTable) -> f64 {
    let cell_x = unit_cell(x.floor() as isize);
    let cell_y = unit_cell(y.floor() as isize);
    let x = x - x.floor();
    let y = y - y.floor();
    let u = fade(x);
    let v = fade(y);
    let corners = corner_gradients(table, cell_x, cell_y);
    let g00 = influence(corners.g00, x, y);
    let g01 = influence(corners.g01, x, y - 1.0);
    let g10 = influence(corners.g10, x - 1.0, y);
    let g11 = influence(corners.g11, x - 1.0, y - 1.0);
    lerp(v, lerp(u, g00, g10), lerp(u, g01, g11))
}

#[test]
fn gradient_follows_the_low_two_bits() {
    for hash in 0..=255u8 {
        let expected = match hash & 0b11 {
            0 => Gradient::PlusPlus,
            1 => Gradient::PlusMinus,
            2 => Gradient::MinusPlus,
            _ => Gradient::MinusMinus,
        };
        assert_eq!(Gradient::from_hash(hash), expected);
    }
    assert_eq!(Gradient::from_hash(0), Gradient::PlusPlus);
    assert_eq!(Gradient::from_hash(5), Gradient::PlusMinus);
    assert_eq!(Gradient::from_hash(250), Gradient::MinusPlus);
    assert_eq!(Gradient::from_hash(255), Gradient::MinusMinus);
}

#[test]
fn gradient_components_are_the_four_diagonals() {
    assert_eq!((Gradient::PlusPlus.x(), Gradient::PlusPlus.y()), (1, 1));
    assert_eq!((Gradient::PlusMinus.x(), Gradient::PlusMinus.y()), (1, -1));
    assert_eq!((Gradient::MinusPlus.x(), Gradient::MinusPlus.y()), (-1, 1));
    assert_eq!((Gradient::MinusMinus.x(), Gradient::MinusMinus.y()), (-1, -1));
}

#[test]
fn unit_cell_wraps_into_the_table_period() {
    assert_eq!(unit_cell(0), 0);
    assert_eq!(unit_cell(5), 5);
    assert_eq!(unit_cell(255), 255);
    assert_eq!(unit_cell(256), 0);
    assert_eq!(unit_cell(517), 5);
    assert_eq!(unit_cell(-1), 255);
    assert_eq!(unit_cell(-256), 0);
    assert_eq!(unit_cell(-257), 255);
    assert_eq!(unit_cell(isize::MAX), 255);
    assert_eq!(unit_cell(isize::MIN), 0);
    for floor in -1000..1000isize {
        assert_eq!(unit_cell(floor), floor.rem_euclid(256) as u8);
        assert_eq!(unit_cell(floor), (floor & 0xff) as u8);
    }
}

#[test]
fn corner_gradients_hash_the_four_corners() {
    let table = PermutationTable::new(REFERENCE_SEED);
    for cell_x in 0..=255u8 {
        for cell_y in [0u8, 1, 7, 128, 254, 255] {
            let x = cell_x as isize;
            let y = cell_y as isize;
            let expected = CornerGradients {
                g00: Gradient::from_hash(table.hash(&[x, y])),
                g01: Gradient::from_hash(table.hash(&[x, y + 1])),
                g10: Gradient::from_hash(table.hash(&[x + 1, y])),
                g11: Gradient::from_hash(table.hash(&[x + 1, y + 1])),
            };
            assert_eq!(corner_gradients(&table, cell_x, cell_y), expected);
        }
    }
}

#[test]
fn corner_gradients_reference_values() {
    let table = PermutationTable::new(REFERENCE_SEED);
    assert_eq!(
        corner_gradients(&table, 3, 7),
        CornerGradients {
            g00: Gradient::PlusPlus,
            g01: Gradient::PlusMinus,
            g10: Gradient::MinusMinus,
            g11: Gradient::PlusPlus,
        }
    );
    assert_eq!(
        corner_gradients(&table, 12, 200),
        CornerGradients {
            g00: Gradient::PlusPlus,
            g01: Gradient::MinusPlus,
            g10: Gradient::MinusPlus,
            g11: Gradient::PlusPlus,
        }
    );
    assert_eq!(
        corner_gradients(&table, 255, 255),
        CornerGradients {
            g00: Gradient::MinusMinus,
            g01: Gradient::PlusMinus,
            g10: Gradient::PlusMinus,
            g11: Gradient::MinusMinus,
        }
    );
}

#[test]
fn neighbouring_cells_share_their_corners() {
    let table = PermutationTable::new(REFERENCE_SEED);
    for cell_x in 0..=255u8 {
        for cell_y in 0..=255u8 {
            let here = corner_gradients(&table, cell_x, cell_y);
            let right = corner_gradients(&table, cell_x.wrapping_add(1), cell_y);
            let above = corner_gradients(&table, cell_x, cell_y.wrapping_add(1));
            assert_eq!(here.g10, right.g00);
            assert_eq!(here.g11, right.g01);
            assert_eq!(here.g01, above.g00);
            assert_eq!(here.g11, above.g10);
        }
    }
}

#[test]
fn fade_meets_its_boundary_conditions() {
    assert_eq!(fade(0.0), 0.0);
    assert_eq!(fade(1.0), 1.0);
    assert_eq!(fade(0.5), 0.5);
    assert_eq!(fade(0.25), 0.103515625);
    let mut previous = fade(0.0);
    for step in 1..=1000 {
        let current = fade(f64::from(step) / 1000.0);
        assert!(current >= previous, "step {}", step);
        previous = current;
    }
}

#[test]
fn lerp_meets_its_identities() {
    for (a, b) in [(0.0, 1.0), (-3.5, 2.25), (7.0, 7.0), (1024.0, -0.5)] {
        assert_eq!(lerp(0.0, a, b), a);
        assert_eq!(lerp(1.0, a, b), b);
        for t in [-2.0, 0.0, 0.3, 0.5, 1.0, 4.0] {
            assert_eq!(lerp(t, a, a), a);
        }
    }
    assert_eq!(lerp(0.25, 2.0, 6.0), 3.0);
}

#[test]
fn noise_vanishes_on_lattice_points() {
    let table = PermutationTable::new(REFERENCE_SEED);
    assert_eq!(perlin2d(5.0, 3.0, &table), 0.0);
    for x in -4..300 {
        for y in [-300, -1, 0, 1, 2, 100, 255, 256, 1000] {
            let value = perlin2d(f64::from(x), f64::from(y), &table);
            assert!(value.abs() < 1e-12, "({}, {}) gave {}", x, y, value);
        }
    }
}

#[test]
fn noise_stays_within_its_bounds() {
    let table = PermutationTable::new(REFERENCE_SEED);
    let mut generator = SplitMix64::seed_from_u64(2024);
    for _ in 0..10_000 {
        let x: f64 = generator.gen_range(-1000.0..1000.0);
        let y: f64 = generator.gen_range(-1000.0..1000.0);
        let value = perlin2d(x, y, &table);
        assert!(value >= -1.0 - 1e-9 && value <= 1.0 + 1e-9, "({}, {}) gave {}", x, y, value);
    }
}

#[test]
fn reference_seed_end_to_end() {
    let table = PermutationTable::new(REFERENCE_SEED);
    let value = perlin2d(512.0 / 100.0, 512.0 / 100.0, &table);
    assert!((value - (-0.21136220160000013)).abs() < 1e-9, "gave {}", value);
    let value = perlin2d(12.25, 200.75, &table);
    assert!((value - (-0.3857688903808594)).abs() < 1e-9, "gave {}", value);
    let value = perlin2d(0.5, 0.5, &table);
    assert!(value.abs() < 1e-9, "gave {}", value);
}
