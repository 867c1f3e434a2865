use binary_greedy_meshing::mask::build_face_masks;
use binary_greedy_meshing::{pad_linearize, CS, CS_2, CS_P3};
use std::collections::BTreeSet;

fn built(grid: &[u16], transparents: &[u16]) -> Vec<u64> {
    let mut masks = vec![0u64; 6 * CS_2];
    build_face_masks(grid, &mut masks, &transparents.iter().copied().collect());
    masks
}

fn set_words(masks: &[u64]) -> Vec<(usize, u64)> {
    masks.iter().copied().enumerate().filter(|&(_, word)| word != 0).collect()
}

#[test]
fn empty_grid_sets_no_bit() {
    let masks = built(&vec![0; CS_P3], &[1, 2]);
    assert_eq!(masks.len(), 6 * CS_2);
    assert!(masks.iter().all(|&word| word == 0));
}

#[test]
fn single_voxel_sets_one_bit_per_direction() {
    let mut grid = vec![0u16; CS_P3];
    grid[pad_linearize(1, 2, 3)] = 6;
    let masks = built(&grid, &[]);
    let straight = 1 + 2 * CS;
    let exchanged = 2 + 1 * CS;
    assert_eq!(
        set_words(&masks),
        vec![
            (straight, 1 << 3),
            (straight + CS_2, 1 << 3),
            (exchanged + 2 * CS_2, 1 << 3),
            (exchanged + 3 * CS_2, 1 << 3),
            (straight + 4 * CS_2, 1 << 4),
            (straight + 5 * CS_2, 1 << 4),
        ]
    );
}

#[test]
fn scan_axis_pair_is_one_bit_higher() {
    let mut grid = vec![0u16; CS_P3];
    grid[pad_linearize(0, 0, 0)] = 1;
    grid[pad_linearize(0, 0, 61)] = 1;
    let masks = built(&grid, &[]);
    for face in 0..4 {
        assert_eq!(masks[face * CS_2], 1 | (1 << 61));
    }
    for face in 4..6 {
        assert_eq!(masks[face * CS_2], (1 << 1) | (1 << 62));
    }
}

#[test]
fn shared_face_bits_stay_clear_on_both_sides() {
    let mut grid = vec![0u16; CS_P3];
    grid[pad_linearize(1, 2, 3)] = 6;
    grid[pad_linearize(1, 2, 4)] = 6;
    for transparents in [vec![], vec![6]] {
        let masks = built(&grid, &transparents);
        let word = 1 + 2 * CS;
        assert_eq!(masks[word + 4 * CS_2], 1 << 5);
        assert_eq!(masks[word + 5 * CS_2], 1 << 4);
        assert_eq!(masks[word], (1 << 3) | (1 << 4));
        assert_eq!(masks[word + CS_2], (1 << 3) | (1 << 4));
    }
}

#[test]
fn shared_face_bits_stay_clear_across_columns() {
    let mut grid = vec![0u16; CS_P3];
    grid[pad_linearize(10, 20, 30)] = 3;
    grid[pad_linearize(11, 20, 30)] = 3;
    grid[pad_linearize(10, 21, 30)] = 3;
    let masks = built(&grid, &[3]);
    let bit = 1u64 << 30;
    assert_eq!(masks[10 + 20 * CS], 0);
    assert_eq!(masks[10 + 21 * CS], bit);
    assert_eq!(masks[11 + 20 * CS], bit);
    assert_eq!(masks[10 + 20 * CS + CS_2], bit);
    assert_eq!(masks[10 + 21 * CS + CS_2], 0);
    assert_eq!(masks[20 + 10 * CS + 2 * CS_2], 0);
    assert_eq!(masks[20 + 11 * CS + 2 * CS_2], bit);
    assert_eq!(masks[20 + 10 * CS + 3 * CS_2], bit);
    assert_eq!(masks[20 + 11 * CS + 3 * CS_2], 0);
}

#[test]
fn transparent_neighbour_leaves_the_bit_set() {
    let mut grid = vec![0u16; CS_P3];
    grid[pad_linearize(5, 5, 5)] = 1;
    grid[pad_linearize(5, 5, 6)] = 2;
    let word = 5 + 5 * CS;
    let opaque = built(&grid, &[]);
    assert_eq!(opaque[word + 4 * CS_2], 1 << 7);
    assert_eq!(opaque[word + 5 * CS_2], 1 << 6);
    let glass = built(&grid, &[2]);
    assert_eq!(glass[word + 4 * CS_2], (1 << 6) | (1 << 7));
    assert_eq!(glass[word + 5 * CS_2], 1 << 6);
}

#[test]
fn masks_do_not_depend_on_unused_transparents() {
    let mut grid = vec![0u16; CS_P3];
    for i in 0..100 {
        grid[pad_linearize((i * 3) % CS, (i * 5) % CS, (i * 11) % CS)] = 1 + (i % 3) as u16;
    }
    let plain = built(&grid, &[]);
    let other: BTreeSet<u16> = [7, 8, 9].into_iter().collect();
    let mut masks = vec![0u64; 6 * CS_2];
    build_face_masks(&grid, &mut masks, &other);
    assert_eq!(plain, masks);
}
