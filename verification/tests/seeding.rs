use game_of_life::{BorderPolicy, GameMap};

fn live_cells(map: &GameMap) -> Vec<(usize, usize)> {
    let mut cells = Vec::new();
    for y in 0..map.height() {
        for x in 0..map.width() {
            if map.is_alive(x, y) {
                cells.push((x, y));
            }
        }
    }
    cells
}

#[test]
fn seeding_places_exactly_the_count() {
    for count in [0usize, 1, 2, 7, 19, 20] {
        let mut map = GameMap::new(5, 4, BorderPolicy::Clipped).unwrap();
        map.random_insert(count);
        assert_eq!(map.live_count(), count);
        assert_eq!(map.dead_count(), 20 - count);
        assert_eq!(live_cells(&map).len(), count);
    }
}

#[test]
fn seeding_the_whole_grid_fills_it() {
    let mut map = GameMap::new(4, 4, BorderPolicy::Wrap).unwrap();
    map.random_insert(16);
    for y in 0..4usize {
        for x in 0..4usize {
            assert!(map.is_alive(x, y));
        }
    }
}

#[test]
fn seeding_more_than_fits_fills_the_grid_and_ends() {
    let mut map = GameMap::new(3, 3, BorderPolicy::Clipped).unwrap();
    map.random_insert(100);
    assert_eq!(map.live_count(), 9);
    map.random_insert(usize::MAX);
    assert_eq!(map.live_count(), 9);
}

#[test]
fn seeding_again_takes_other_cells() {
    let mut map = GameMap::new(6, 5, BorderPolicy::Wrap).unwrap();
    map.random_insert(10);
    let first = live_cells(&map);
    assert_eq!(first.len(), 10);
    map.random_insert(12);
    let second = live_cells(&map);
    assert_eq!(second.len(), 22);
    for cell in &first {
        assert!(second.contains(cell));
    }
    map.random_insert(12);
    assert_eq!(map.live_count(), 30);
}

#[test]
fn seeding_keeps_cells_that_were_set() {
    let mut map = GameMap::new(3, 3, BorderPolicy::Clipped).unwrap();
    map.set_cell(1, 1, true);
    map.set_cell(2, 0, true);
    map.random_insert(4);
    assert!(map.is_alive(1, 1));
    assert!(map.is_alive(2, 0));
    assert_eq!(map.live_count(), 6);
}

#[test]
fn seeding_after_clear_starts_over() {
    let mut map = GameMap::new(4, 2, BorderPolicy::Clipped).unwrap();
    map.random_insert(8);
    map.clear();
    map.random_insert(3);
    assert_eq!(map.live_count(), 3);
}

#[test]
fn seeding_keeps_shape_and_policy() {
    let mut map = GameMap::new(7, 2, BorderPolicy::Wrap).unwrap();
    map.random_insert(5);
    assert_eq!(map.width(), 7);
    assert_eq!(map.height(), 2);
    assert_eq!(map.border(), BorderPolicy::Wrap);
}

#[test]
fn seeding_reaches_every_column_of_a_wide_grid() {
    let mut seen = [false; 8];
    for _ in 0..400 {
        let mut map = GameMap::new(8, 1, BorderPolicy::Clipped).unwrap();
        map.random_insert(1);
        let cells = live_cells(&map);
        assert_eq!(cells.len(), 1);
        assert_eq!(cells[0].1, 0);
        seen[cells[0].0] = true;
    }
    assert_eq!(seen, [true; 8]);
}

#[test]
fn seeding_reaches_every_row_of_a_tall_grid() {
    let mut seen = [false; 8];
    for _ in 0..400 {
        let mut map = GameMap::new(1, 8, BorderPolicy::Wrap).unwrap();
        map.random_insert(1);
        let cells = live_cells(&map);
        assert_eq!(cells.len(), 1);
        assert_eq!(cells[0].0, 0);
        seen[cells[0].1] = true;
    }
    assert_eq!(seen, [true; 8]);
}

#[test]
fn seeding_one_cell_does_not_always_take_the_same() {
    let mut seen = Vec::new();
    for _ in 0..200 {
        let mut map = GameMap::new(8, 8, BorderPolicy::Clipped).unwrap();
        map.random_insert(1);
        let cells = live_cells(&map);
        assert_eq!(cells.len(), 1);
        if !seen.contains(&cells[0]) {
            seen.push(cells[0]);
        }
    }
    assert!(seen.len() >= 2);
}

#[test]
fn rank_zero_takes_the_first_dead_cell() {
    let mut map = GameMap::new(3, 2, BorderPolicy::Clipped).unwrap();
    assert_eq!(map.insert_nth_dead(0), Some((0, 0)));
    assert_eq!(map.insert_nth_dead(0), Some((1, 0)));
    assert_eq!(live_cells(&map), vec![(0, 0), (1, 0)]);
}

#[test]
fn ranks_run_row_by_row() {
    let mut map = GameMap::new(3, 2, BorderPolicy::Clipped).unwrap();
    assert_eq!(map.insert_nth_dead(2), Some((2, 0)));
    let mut map = GameMap::new(3, 2, BorderPolicy::Clipped).unwrap();
    assert_eq!(map.insert_nth_dead(3), Some((0, 1)));
    let mut map = GameMap::new(3, 2, BorderPolicy::Clipped).unwrap();
    assert_eq!(map.insert_nth_dead(5), Some((2, 1)));
    assert_eq!(live_cells(&map), vec![(2, 1)]);
}

#[test]
fn ranks_skip_live_cells() {
    let mut map = GameMap::new(3, 3, BorderPolicy::Wrap).unwrap();
    map.set_cell(0, 0, true);
    map.set_cell(1, 0, true);
    map.set_cell(0, 1, true);
    assert_eq!(map.insert_nth_dead(0), Some((2, 0)));
    assert_eq!(map.insert_nth_dead(0), Some((1, 1)));
    assert_eq!(map.insert_nth_dead(1), Some((0, 2)));
    assert_eq!(map.insert_nth_dead(2), Some((2, 2)));
    assert_eq!(
        live_cells(&map),
        vec![(0, 0), (1, 0), (2, 0), (0, 1), (1, 1), (0, 2), (2, 2)]
    );
}

#[test]
fn rank_past_the_dead_cells_changes_nothing() {
    let mut map = GameMap::new(2, 2, BorderPolicy::Clipped).unwrap();
    map.set_cell(1, 0, true);
    assert_eq!(map.insert_nth_dead(3), None);
    assert_eq!(map.insert_nth_dead(usize::MAX), None);
    assert_eq!(live_cells(&map), vec![(1, 0)]);
    assert_eq!(map.insert_nth_dead(2), Some((1, 1)));
}

#[test]
fn full_grid_has_no_rank() {
    let mut map = GameMap::new(2, 1, BorderPolicy::Clipped).unwrap();
    map.set_cell(0, 0, true);
    map.set_cell(1, 0, true);
    assert_eq!(map.insert_nth_dead(0), None);
    assert_eq!(map.live_count(), 2);
}

#[test]
fn counts_add_up_to_the_number_of_cells() {
    let mut map = GameMap::new(5, 3, BorderPolicy::Clipped).unwrap();
    map.set_cell(0, 0, true);
    map.set_cell(4, 2, true);
    map.set_cell(2, 1, true);
    map.set_cell(2, 1, true);
    assert_eq!(map.live_count(), 3);
    assert_eq!(map.dead_count(), 12);
}
