use game_of_life::{BorderPolicy, GameMap};

#[test]
fn empty_grid_renders_as_blank_lines() {
    let map = GameMap::new(3, 2, BorderPolicy::Clipped).unwrap();
    assert_eq!(map.render(), "   \n   \n");
}

#[test]
fn live_cells_render_as_hashes() {
    let mut map = GameMap::new(4, 3, BorderPolicy::Wrap).unwrap();
    map.set_cell(0, 0, true);
    map.set_cell(3, 0, true);
    map.set_cell(1, 1, true);
    map.set_cell(2, 2, true);
    assert_eq!(map.render(), "#  #\n #  \n  # \n");
}

#[test]
fn full_grid_renders_as_hashes_only() {
    let mut map = GameMap::new(2, 2, BorderPolicy::Clipped).unwrap();
    map.random_insert(4);
    assert_eq!(map.render(), "##\n##\n");
}

#[test]
fn rendering_has_one_line_per_row_and_one_character_per_cell() {
    let mut map = GameMap::new(7, 5, BorderPolicy::Clipped).unwrap();
    map.random_insert(11);
    let text = map.render();
    assert_eq!(text.len(), 5 * (7 + 1));
    assert!(text.ends_with('\n'));
    let lines: Vec<&str> = text.lines().collect();
    assert_eq!(lines.len(), 5);
    for (y, line) in lines.iter().enumerate() {
        let glyphs: Vec<char> = line.chars().collect();
        assert_eq!(glyphs.len(), 7);
        for (x, glyph) in glyphs.iter().enumerate() {
            assert_eq!(*glyph, if map.is_alive(x, y) { '#' } else { ' ' });
        }
    }
    assert_eq!(text.matches('#').count(), 11);
}

#[test]
fn rendering_twice_gives_the_same_text() {
    let mut map = GameMap::new(6, 4, BorderPolicy::Wrap).unwrap();
    map.random_insert(9);
    let first = map.render();
    let second = map.render();
    assert_eq!(first, second);
}

#[test]
fn rendering_does_not_change_the_grid() {
    let mut map = GameMap::new(3, 3, BorderPolicy::Clipped).unwrap();
    map.set_cell(1, 0, true);
    map.set_cell(1, 1, true);
    map.set_cell(1, 2, true);
    let before = map.render();
    assert_eq!(before, " # \n # \n # \n");
    assert_eq!(map.live_count(), 3);
    map.compute_next_iteration();
    assert_eq!(map.render(), "   \n###\n   \n");
}

#[test]
fn single_column_renders_one_glyph_per_line() {
    let mut map = GameMap::new(1, 3, BorderPolicy::Clipped).unwrap();
    map.set_cell(0, 1, true);
    assert_eq!(map.render(), " \n#\n \n");
}
