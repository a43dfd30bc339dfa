use dsquaremapper::{ETypeFloor, MapData, MapError, MapTools, ToolKey};

#[test]
fn keys_select_their_tiles() {
    let mut tools = MapTools::default();
    tools.press_key(ToolKey::Key2);
    assert_eq!(tools.type_floor_selected, ETypeFloor::Door);
    tools.press_key(ToolKey::Key3);
    assert_eq!(tools.type_floor_selected, ETypeFloor::Wall);
    tools.press_key(ToolKey::Key4);
    assert_eq!(tools.type_floor_selected, ETypeFloor::Trap);
    tools.press_key(ToolKey::E);
    assert_eq!(tools.type_floor_selected, ETypeFloor::Empty);
    tools.press_key(ToolKey::Key1);
    assert_eq!(tools.type_floor_selected, ETypeFloor::Floor);
}

#[test]
fn left_button_paints_and_right_button_erases() {
    let mut md = MapData::default();
    let mut tools = MapTools::default();
    tools.press_key(ToolKey::Key3);
    assert_eq!(md.pointer_update(&tools, 4, 2, true, false), Ok(true));
    assert_eq!(md.cells[1][3].type_floor, ETypeFloor::Wall);
    assert_eq!(md.pointer_update(&tools, 5, 2, true, true), Ok(true));
    assert_eq!(md.cells[1][4].type_floor, ETypeFloor::Wall);
    assert_eq!(md.pointer_update(&tools, 4, 2, false, true), Ok(true));
    assert_eq!(md.cells[1][3].type_floor, ETypeFloor::Empty);
    assert_eq!(md.cells[1][4].type_floor, ETypeFloor::Wall);
}

#[test]
fn pointer_without_a_button_or_off_the_map_changes_nothing() {
    let mut md = MapData::default();
    let tools = MapTools::default();
    let before = md.cells;
    assert_eq!(md.pointer_update(&tools, 4, 2, false, false), Ok(false));
    assert_eq!(md.pointer_update(&tools, 0, 2, true, false), Ok(false));
    assert_eq!(md.pointer_update(&tools, 4, 0, true, false), Ok(false));
    assert_eq!(md.pointer_update(&tools, 21, 2, true, false), Ok(false));
    assert_eq!(md.pointer_update(&tools, 4, 21, false, true), Ok(false));
    assert_eq!(md.cells, before);
    assert_eq!(md.pointer_update(&tools, 20, 20, true, false), Ok(true));
    assert_eq!(md.cells[19][19].type_floor, ETypeFloor::Floor);
}

#[test]
fn pointer_over_a_cell_that_the_origin_policy_refuses_reports_it() {
    let mut md = MapData::default();
    md.invert_row_origin = true;
    md.map_size_x = 30;
    let tools = MapTools::default();
    let before = md.cells;
    assert_eq!(md.pointer_update(&tools, 4, 2, true, false), Err(MapError::OutOfBounds));
    assert_eq!(md.cells, before);
    assert_eq!(md.pointer_update(&tools, 11, 2, true, false), Ok(true));
    assert_eq!(md.cells[1][19].type_floor, ETypeFloor::Floor);
}
