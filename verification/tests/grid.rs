use dsquaremapper::{Cell, ETypeFloor, MapData, MapError, MapTools};

fn blank<const X: usize, const Y: usize>() -> [[Cell; X]; Y] {
    std::array::from_fn(|y| std::array::from_fn(|x| Cell::_new(x, y, ETypeFloor::Empty)))
}

fn grid<const X: usize, const Y: usize>(invert_row: bool, invert_col: bool) -> MapData<X, Y> {
    MapData::new("grid".to_string(), blank(), X, Y, invert_row, invert_col)
}

fn tiles<const X: usize, const Y: usize>(map: &MapData<X, Y>) -> Vec<(usize, usize, ETypeFloor)> {
    let mut found = Vec::new();
    for row in map.cells.iter() {
        for cell in row.iter() {
            if cell.type_floor != ETypeFloor::Empty {
                found.push((cell.x, cell.y, cell.type_floor));
            }
        }
    }
    found
}

#[test]
fn update_map_cell_success() {
    let mut md = MapData::default();

    md.update_cell(1, 1, ETypeFloor::Floor).unwrap();
    md.update_cell(5, 2, ETypeFloor::Door).unwrap();
    md.update_cell(3, 2, ETypeFloor::Wall).unwrap();
    md.update_cell(10, 5, ETypeFloor::Trap).unwrap();

    assert_eq!(md.cells[0][0].type_floor, ETypeFloor::Floor);
    assert_eq!(md.cells[1][4].type_floor, ETypeFloor::Door);
    assert_eq!(md.cells[1][2].type_floor, ETypeFloor::Wall);
    assert_eq!(md.cells[4][9].type_floor, ETypeFloor::Trap);
}

#[test]
fn default_map_is_blank_and_plain() {
    let md = MapData::default();
    assert_eq!(md.name, "Map");
    assert_eq!(md.map_size_x, 20);
    assert_eq!(md.map_size_y, 20);
    assert!(!md.invert_row_origin);
    assert!(!md.invert_col_origin);
    assert_eq!(md.cells.len(), 20);
    for (y, row) in md.cells.iter().enumerate() {
        assert_eq!(row.len(), 20);
        for (x, cell) in row.iter().enumerate() {
            assert_eq!(*cell, Cell { x, y, type_floor: ETypeFloor::Empty });
        }
    }
}

#[test]
fn new_keeps_its_parts() {
    let mut cells = blank::<3, 2>();
    cells[1][2].type_floor = ETypeFloor::Wall;
    let md = MapData::<3, 2>::new("cave".to_string(), cells, 3, 2, true, false);
    assert_eq!(md.name, "cave");
    assert_eq!(md.cells, cells);
    assert_eq!(md.map_size_x, 3);
    assert_eq!(md.map_size_y, 2);
    assert!(md.invert_row_origin);
    assert!(!md.invert_col_origin);
}

#[test]
fn update_only_touches_the_addressed_cell() {
    let mut md = MapData::default();
    md.update_cell(7, 3, ETypeFloor::Trap).unwrap();
    assert_eq!(tiles(&md), vec![(6, 2, ETypeFloor::Trap)]);
    assert_eq!(md.cells[2][6], Cell { x: 6, y: 2, type_floor: ETypeFloor::Trap });
}

#[test]
fn update_then_get_yields_the_tile() {
    let kinds = [
        ETypeFloor::Empty,
        ETypeFloor::Floor,
        ETypeFloor::Door,
        ETypeFloor::Trap,
        ETypeFloor::Wall,
    ];
    let mut md = grid::<4, 3>(false, false);
    let mut n = 0;
    for y in 1..=3 {
        for x in 1..=4 {
            let kind = kinds[n % 5];
            n += 1;
            assert_eq!(md.update_cell(x, y, kind), Ok(()));
            let cell = md.get_cell(x - 1, y - 1).unwrap();
            assert_eq!(*cell, Cell { x: x - 1, y: y - 1, type_floor: kind });
        }
    }
}

#[test]
fn update_then_get_yields_the_tile_with_both_axes_inverted() {
    let mut md = grid::<4, 3>(true, true);
    for y in 1..=3 {
        for x in 1..=4 {
            assert_eq!(md.update_cell(x, y, ETypeFloor::Door), Ok(()));
            let cell = md.get_cell(4 - x, 3 - y).unwrap();
            assert_eq!(*cell, Cell { x: 4 - x, y: 3 - y, type_floor: ETypeFloor::Door });
            assert_eq!(md.update_cell(x, y, ETypeFloor::Empty), Ok(()));
        }
    }
    assert_eq!(tiles(&md), vec![]);
}

#[test]
fn last_write_wins() {
    let mut md = MapData::default();
    md.update_cell(2, 2, ETypeFloor::Floor).unwrap();
    md.update_cell(2, 2, ETypeFloor::Wall).unwrap();
    assert_eq!(md.get_cell(1, 1).unwrap().type_floor, ETypeFloor::Wall);
    md.update_cell(2, 2, ETypeFloor::Empty).unwrap();
    assert_eq!(tiles(&md), vec![]);
}

#[test]
fn coordinate_zero_is_out_of_bounds() {
    let mut md = MapData::default();
    let before = md.cells;
    assert_eq!(md.update_cell(0, 1, ETypeFloor::Floor), Err(MapError::OutOfBounds));
    assert_eq!(md.update_cell(1, 0, ETypeFloor::Floor), Err(MapError::OutOfBounds));
    assert_eq!(md.update_cell(0, 0, ETypeFloor::Floor), Err(MapError::OutOfBounds));
    assert_eq!(md.cells, before);
}

#[test]
fn coordinate_zero_is_out_of_bounds_on_inverted_axes() {
    let mut md = grid::<4, 3>(true, true);
    let before = md.cells;
    assert_eq!(md.update_cell(0, 1, ETypeFloor::Floor), Err(MapError::OutOfBounds));
    assert_eq!(md.update_cell(1, 0, ETypeFloor::Floor), Err(MapError::OutOfBounds));
    assert_eq!(md.cells, before);
}

#[test]
fn coordinates_past_the_edge_are_out_of_bounds() {
    let mut md = MapData::default();
    let before = md.cells;
    assert_eq!(md.update_cell(21, 1, ETypeFloor::Floor), Err(MapError::OutOfBounds));
    assert_eq!(md.update_cell(1, 21, ETypeFloor::Floor), Err(MapError::OutOfBounds));
    assert_eq!(md.update_cell(usize::MAX, usize::MAX, ETypeFloor::Floor), Err(MapError::OutOfBounds));
    assert_eq!(md.cells, before);
    assert_eq!(md.update_cell(20, 20, ETypeFloor::Floor), Ok(()));
    assert_eq!(md.cells[19][19].type_floor, ETypeFloor::Floor);

    let mut inverted = grid::<4, 3>(true, true);
    assert_eq!(inverted.update_cell(5, 1, ETypeFloor::Floor), Err(MapError::OutOfBounds));
    assert_eq!(inverted.update_cell(1, 4, ETypeFloor::Floor), Err(MapError::OutOfBounds));
    assert_eq!(inverted.update_cell(4, 3, ETypeFloor::Floor), Ok(()));
    assert_eq!(inverted.cells[0][0].type_floor, ETypeFloor::Floor);
}

#[test]
fn inverted_row_origin_counts_columns_from_the_far_edge() {
    let mut md = MapData::default();
    md.invert_row_origin = true;

    md.update_cell(1, 1, ETypeFloor::Floor).unwrap();
    md.update_cell(5, 2, ETypeFloor::Door).unwrap();
    md.update_cell(3, 2, ETypeFloor::Wall).unwrap();
    md.update_cell(10, 5, ETypeFloor::Trap).unwrap();

    assert_eq!(md.cells[0][19].type_floor, ETypeFloor::Floor);
    assert_eq!(md.cells[1][15].type_floor, ETypeFloor::Door);
    assert_eq!(md.cells[1][17].type_floor, ETypeFloor::Wall);
    assert_eq!(md.cells[4][10].type_floor, ETypeFloor::Trap);
    assert_eq!(tiles(&md).len(), 4);
}

#[test]
fn inverted_col_origin_counts_rows_from_the_far_edge() {
    let mut md = MapData::default();
    md.invert_col_origin = true;

    md.update_cell(1, 1, ETypeFloor::Floor).unwrap();
    md.update_cell(5, 2, ETypeFloor::Door).unwrap();
    md.update_cell(3, 2, ETypeFloor::Wall).unwrap();
    md.update_cell(10, 5, ETypeFloor::Trap).unwrap();

    assert_eq!(md.cells[19][0].type_floor, ETypeFloor::Floor);
    assert_eq!(md.cells[18][4].type_floor, ETypeFloor::Door);
    assert_eq!(md.cells[18][2].type_floor, ETypeFloor::Wall);
    assert_eq!(md.cells[15][9].type_floor, ETypeFloor::Trap);
    assert_eq!(tiles(&md).len(), 4);
}

#[test]
fn get_cell_reads_zero_based_positions_as_given() {
    let mut md = grid::<4, 3>(true, true);
    md.cells[2][1].type_floor = ETypeFloor::Trap;
    assert_eq!(*md.get_cell(1, 2).unwrap(), Cell { x: 1, y: 2, type_floor: ETypeFloor::Trap });
    assert_eq!(*md.get_cell(0, 0).unwrap(), Cell { x: 0, y: 0, type_floor: ETypeFloor::Empty });
    assert_eq!(*md.get_cell(3, 2).unwrap(), Cell { x: 3, y: 2, type_floor: ETypeFloor::Empty });
}

#[test]
fn get_cell_outside_the_grid_is_not_found() {
    let md = grid::<4, 3>(false, false);
    assert_eq!(md.get_cell(4, 0), Err(MapError::NotFound));
    assert_eq!(md.get_cell(0, 3), Err(MapError::NotFound));
    assert_eq!(md.get_cell(usize::MAX, usize::MAX), Err(MapError::NotFound));
    let empty = grid::<0, 0>(false, false);
    assert_eq!(empty.get_cell(0, 0), Err(MapError::NotFound));
}

#[test]
fn reset_blanks_every_cell_in_place() {
    let mut md = grid::<4, 3>(true, false);
    md.name = "kept".to_string();
    md.update_cell(1, 1, ETypeFloor::Floor).unwrap();
    md.update_cell(2, 3, ETypeFloor::Wall).unwrap();
    md.cells[1][1].x = 9;
    md.reset();
    assert_eq!(md.cells, blank::<4, 3>());
    assert_eq!(md.name, "kept");
    assert_eq!((md.map_size_x, md.map_size_y), (4, 3));
    assert!(md.invert_row_origin);
    assert!(!md.invert_col_origin);
    md.reset();
    assert_eq!(md.cells, blank::<4, 3>());
}

#[test]
fn update_goes_by_the_declared_size() {
    let mut md = MapData::<4, 3>::new("odd".to_string(), blank(), 2, 9, true, true);
    assert_eq!(md.update_cell(1, 8, ETypeFloor::Door), Ok(()));
    assert_eq!(md.cells[1][1].type_floor, ETypeFloor::Door);
    assert_eq!(md.update_cell(3, 8, ETypeFloor::Door), Err(MapError::OutOfBounds));
    assert_eq!(md.update_cell(1, 2, ETypeFloor::Door), Err(MapError::OutOfBounds));
    assert_eq!(md.update_cell(1, 10, ETypeFloor::Door), Err(MapError::OutOfBounds));
}

#[test]
fn file_name_follows_the_map_name() {
    let mut md = MapData::default();
    assert_eq!(md.file_name(), "Map.txt");
    md.name = "deep cave".to_string();
    assert_eq!(md.file_name(), "deep cave.txt");
    md.name = String::new();
    assert_eq!(md.file_name(), ".txt");
}

#[test]
fn cell_update_keeps_the_coordinates() {
    let mut cell = Cell::_new(3, 7, ETypeFloor::Floor);
    assert_eq!(cell, Cell { x: 3, y: 7, type_floor: ETypeFloor::Floor });
    cell.update(ETypeFloor::Trap);
    assert_eq!(cell.get_data(), (3, 7, ETypeFloor::Trap));
}

#[test]
fn tools_start_with_floor_and_follow_the_selection() {
    let mut tools = MapTools::default();
    assert_eq!(tools.type_floor_selected, ETypeFloor::Floor);
    tools.change_type_floor_selected(ETypeFloor::Wall);
    assert_eq!(tools.type_floor_selected, ETypeFloor::Wall);
    tools.change_type_floor_selected(ETypeFloor::Empty);
    assert_eq!(tools.type_floor_selected, ETypeFloor::Empty);
}
