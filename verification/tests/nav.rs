use open_rts::nav::NavGrid;

#[test]
fn nav_grid_open_map_needs_no_path() {
    let grid = NavGrid::new(20, 20);
    assert!(!grid.is_blocked(0, 0));
    assert!(!grid.is_blocked(19, 19));
    assert!(grid.is_blocked(-1, 0));
    assert!(grid.is_blocked(0, 20));
}

#[test]
fn blocked_target_resolves_to_the_nearest_open_cell() {
    let mut grid = NavGrid::new(10, 10);
    for z in 3..=7 {
        for x in 3..=7 {
            grid.block_cell(x, z);
        }
    }
    assert_eq!(grid.nearest_open_cell((2, 2)), Some((2, 2)));
    assert_eq!(grid.nearest_open_cell((5, 5)), None.or(grid.nearest_open_cell((5, 5))));
    let found = grid.nearest_open_cell((5, 5)).unwrap();
    assert!(!grid.is_blocked(found.0, found.1));
    assert_eq!(found, (5, 2));
    assert_eq!(grid.nearest_open_cell((4, 4)), Some((4, 2)));
}

#[test]
fn fully_blocked_neighbourhood_has_no_open_cell() {
    let mut grid = NavGrid::new(3, 3);
    for z in 0..3 {
        for x in 0..3 {
            grid.block_cell(x, z);
        }
    }
    assert_eq!(grid.nearest_open_cell((1, 1)), None);
}

#[test]
fn diagonal_steps_do_not_cut_corners() {
    let mut grid = NavGrid::new(4, 4);
    grid.block_cell(1, 0);
    assert!(grid.can_step((0, 0), 0, 1));
    assert!(!grid.can_step((0, 0), 1, 1));
    assert!(!grid.can_step((0, 0), 1, 0));
    assert!(!grid.can_step((0, 0), -1, 0));
    assert!(grid.can_step((2, 2), 1, 1));
}

#[test]
fn equally_close_open_cells_go_to_the_first_row_then_column() {
    let mut grid = NavGrid::new(9, 9);
    for z in 0..9 {
        for x in 0..9 {
            grid.block_cell(x, z);
        }
    }
    // Open only two cells of ring 1 around (4, 4), equally close: the lower
    // row wins; then within a row the lower column.
    let mut open = NavGrid::new(9, 9);
    for z in 0..9 {
        for x in 0..9 {
            if (x, z) != (4, 5) && (x, z) != (5, 4) {
                open.block_cell(x, z);
            }
        }
    }
    assert_eq!(open.nearest_open_cell((4, 4)), Some((5, 4)));
    let mut row = NavGrid::new(9, 9);
    for z in 0..9 {
        for x in 0..9 {
            if (x, z) != (3, 5) && (x, z) != (5, 5) {
                row.block_cell(x, z);
            }
        }
    }
    assert_eq!(row.nearest_open_cell((4, 4)), Some((3, 5)));
    assert_eq!(grid.nearest_open_cell((4, 4)), None);
}
