use game_of_life::grid::{ALIVE_GLYPH, DEAD_GLYPH};
use game_of_life::Universe;

#[test]
fn new_grid_is_blank() {
    let universe = Universe::new(9, 4);
    assert_eq!(universe.width(), 9);
    assert_eq!(universe.height(), 4);
    for row in 0..4 {
        for col in 0..9 {
            assert!(!universe.is_alive(row, col));
        }
    }
    assert_eq!(universe.cells(), &[0u32, 0u32][..]);
}

#[test]
fn toggle_inverts_one_cell() {
    let mut universe = Universe::new(4, 3);
    universe.toggle_cell(1, 2);
    for row in 0..3 {
        for col in 0..4 {
            assert_eq!(universe.is_alive(row, col), row == 1 && col == 2);
        }
    }
}

#[test]
fn toggle_twice_restores_the_grid() {
    let mut universe = Universe::new(5, 4);
    universe.set_pattern();
    let before: Vec<u32> = universe.cells().to_vec();
    let was_alive = universe.is_alive(3, 1);
    universe.toggle_cell(3, 1);
    assert_eq!(universe.is_alive(3, 1), !was_alive);
    assert_ne!(universe.cells(), &before[..]);
    universe.toggle_cell(3, 1);
    assert_eq!(universe.is_alive(3, 1), was_alive);
    assert_eq!(universe.cells(), &before[..]);
}

#[test]
fn cell_index_is_row_times_width_plus_column() {
    let mut universe = Universe::new(4, 3);
    universe.toggle_cell(1, 2);
    // index 1 * 4 + 2 = 6
    assert_eq!(universe.cells(), &[1u32 << 6][..]);
    universe.toggle_cell(2, 3);
    // index 2 * 4 + 3 = 11
    assert_eq!(universe.cells(), &[(1u32 << 6) | (1u32 << 11)][..]);
}

#[test]
fn cells_are_packed_thirty_two_to_a_block() {
    let mut universe = Universe::new(8, 9);
    assert_eq!(universe.cells().len(), 3);
    universe.toggle_cell(0, 0);
    universe.toggle_cell(3, 7);
    universe.toggle_cell(4, 1);
    universe.toggle_cell(8, 7);
    // indices 0, 31, 33 and 71
    assert_eq!(universe.cells(), &[1u32 | (1u32 << 31), 1u32 << 1, 1u32 << 7][..]);
}

#[test]
fn block_count_rounds_up() {
    assert_eq!(Universe::new(1, 1).cells().len(), 1);
    assert_eq!(Universe::new(8, 4).cells().len(), 1);
    assert_eq!(Universe::new(11, 3).cells().len(), 2);
    assert_eq!(Universe::new(8, 8).cells().len(), 2);
    assert_eq!(Universe::new(13, 5).cells().len(), 3);
}

#[test]
fn set_blank_clears_every_cell() {
    let mut universe = Universe::new(7, 6);
    universe.set_random(&[true; 42]);
    assert_eq!(universe.cells(), &[u32::MAX, (1u32 << 10) - 1][..]);
    universe.set_blank();
    assert_eq!(universe.cells(), &[0u32, 0u32][..]);
    assert_eq!(universe.width(), 7);
    assert_eq!(universe.height(), 6);
}

#[test]
fn set_random_follows_the_draws() {
    let draws = [true, false, false, true, true, false];
    let mut universe = Universe::new(3, 2);
    universe.toggle_cell(0, 1);
    universe.set_random(&draws);
    for row in 0..2 {
        for col in 0..3 {
            assert_eq!(universe.is_alive(row, col), draws[row * 3 + col]);
        }
    }
    assert_eq!(universe.cells(), &[0b011001u32][..]);
    assert_eq!(universe.width(), 3);
    assert_eq!(universe.height(), 2);
}

#[test]
fn set_random_with_every_draw_won_fills_the_grid() {
    let mut universe = Universe::new(10, 10);
    universe.set_random(&[true; 100]);
    let alive = (0..100).filter(|i| universe.is_alive(i / 10, i % 10)).count();
    assert_eq!(alive, 100);
    universe.set_random(&[false; 100]);
    let alive = (0..100).filter(|i| universe.is_alive(i / 10, i % 10)).count();
    assert_eq!(alive, 0);
}

#[test]
fn seed_pattern_marks_multiples_of_two_and_seven() {
    let mut universe = Universe::new(5, 4);
    universe.set_pattern();
    for i in 0..20 {
        assert_eq!(universe.is_alive(i / 5, i % 5), i % 2 == 0 || i % 7 == 0);
    }
    assert!(universe.is_alive(1, 2));
    assert!(!universe.is_alive(1, 0));
    assert!(universe.is_alive(2, 4));
}

#[test]
fn display_shows_one_line_for_each_row() {
    let mut universe = Universe::new(3, 2);
    universe.toggle_cell(0, 1);
    universe.toggle_cell(1, 2);
    assert_eq!(universe.display(), "◼◻◼\n◼◼◻\n");
}

#[test]
fn display_of_a_blank_grid() {
    let universe = Universe::new(4, 3);
    assert_eq!(universe.display(), "◼◼◼◼\n◼◼◼◼\n◼◼◼◼\n");
}

#[test]
fn display_uses_the_two_glyphs() {
    assert_eq!(ALIVE_GLYPH, '◻');
    assert_eq!(DEAD_GLYPH, '◼');
    let mut universe = Universe::new(1, 1);
    assert_eq!(universe.display(), format!("{}\n", DEAD_GLYPH));
    universe.toggle_cell(0, 0);
    assert_eq!(universe.display(), format!("{}\n", ALIVE_GLYPH));
}

#[test]
fn display_twice_gives_the_same_text() {
    let mut universe = Universe::new(6, 5);
    universe.set_pattern();
    universe.tick();
    let first = universe.display();
    let second = universe.display();
    assert_eq!(first, second);
    assert_eq!(first.chars().count(), 5 * (6 + 1));
    assert_eq!(first.lines().count(), 5);
}

#[test]
fn display_follows_the_generations() {
    let mut universe = Universe::new(5, 5);
    universe.toggle_cell(2, 1);
    universe.toggle_cell(2, 2);
    universe.toggle_cell(2, 3);
    assert_eq!(universe.display(), "◼◼◼◼◼\n◼◼◼◼◼\n◼◻◻◻◼\n◼◼◼◼◼\n◼◼◼◼◼\n");
    universe.tick();
    assert_eq!(universe.display(), "◼◼◼◼◼\n◼◼◻◼◼\n◼◼◻◼◼\n◼◼◻◼◼\n◼◼◼◼◼\n");
}

#[test]
fn seed_pattern_on_a_grid_of_128_by_128() {
    let mut universe = Universe::new(128, 128);
    universe.set_pattern();
    assert_eq!(universe.cells().len(), 512);
    let mut alive = 0;
    for row in 0..128 {
        for col in 0..128 {
            let index = row * 128 + col;
            assert_eq!(universe.is_alive(row, col), index % 2 == 0 || index % 7 == 0);
            if universe.is_alive(row, col) {
                alive += 1;
            }
        }
    }
    // 8192 even indices and 1170 odd multiples of 7
    assert_eq!(alive, 9362);
    // bits 0, 2, 4, ... and 7, 21 of the first block
    assert_eq!(universe.cells()[0], 0x5555_5555 | (1 << 7) | (1 << 21));
}
