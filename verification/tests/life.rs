use sketchbook::life::{handle_event, Key, Status, Universe, World};

fn dead(width: u32, height: u32) -> Universe {
    let mut universe = Universe::new(width, height);
    universe.set_cells(&[]);
    universe
}

fn with_cells(width: u32, height: u32, cells: &[(u32, u32)]) -> Universe {
    let mut universe = Universe::new(width, height);
    universe.set_cells(cells);
    universe
}

#[test]
fn a_universe_is_written_row_by_row() {
    assert_eq!(dead(3, 2).to_string(), "---\n---\n");
    assert_eq!(with_cells(3, 2, &[(0, 0), (1, 2)]).to_string(), "Q--\n--Q\n");
    assert_eq!(with_cells(2, 3, &[(2, 0), (0, 1)]).to_string(), "-Q\n--\nQ-\n");
    assert_eq!(dead(0, 0).to_string(), "");
    assert_eq!(dead(0, 3).to_string(), "\n\n\n");
    assert_eq!(dead(3, 0).to_string(), "");
}

#[test]
fn a_new_universe_has_a_cell_for_each_place() {
    let text = Universe::new(7, 4).to_string();
    assert_eq!(text.len(), 8 * 4);
    for (index, symbol) in text.chars().enumerate() {
        if index % 8 == 7 {
            assert_eq!(symbol, '\n');
        } else {
            assert!(symbol == 'Q' || symbol == '-');
        }
    }
}

#[test]
fn set_cells_makes_exactly_the_listed_cells_alive() {
    let mut universe = Universe::new(4, 4);
    universe.set_cells(&[(1, 1), (3, 0), (1, 1)]);
    assert_eq!(universe.to_string(), "----\n-Q--\n----\nQ---\n");
    universe.set_cells(&[(0, 3)]);
    assert_eq!(universe.to_string(), "---Q\n----\n----\n----\n");
}

#[test]
fn toggle_cell_inverts_one_cell() {
    let mut universe = dead(3, 3);
    universe.toggle_cell(1, 2);
    assert_eq!(universe.to_string(), "---\n--Q\n---\n");
    universe.toggle_cell(0, 0);
    assert_eq!(universe.to_string(), "Q--\n--Q\n---\n");
    universe.toggle_cell(1, 2);
    assert_eq!(universe.to_string(), "Q--\n---\n---\n");
}

#[test]
fn cells_are_stored_in_blocks_of_thirty_two() {
    let universe = with_cells(8, 5, &[(0, 0), (0, 3), (3, 7), (4, 0)]);
    assert_eq!(universe.get_cells(), &[(1u32 << 0) | (1 << 3) | (1 << 31), 1 << 0]);
    assert_eq!(dead(8, 4).get_cells(), &[0u32]);
    assert_eq!(dead(0, 0).get_cells(), &[] as &[u32]);
    assert_eq!(dead(1, 33).get_cells().len(), 2);
}

#[test]
fn a_blinker_turns() {
    let mut universe = with_cells(5, 5, &[(2, 1), (2, 2), (2, 3)]);
    universe.tick();
    assert_eq!(universe.to_string(), "-----\n--Q--\n--Q--\n--Q--\n-----\n");
    universe.tick();
    assert_eq!(universe.to_string(), "-----\n-----\n-QQQ-\n-----\n-----\n");
}

#[test]
fn a_block_stands_still() {
    let mut universe = with_cells(4, 4, &[(1, 1), (1, 2), (2, 1), (2, 2)]);
    universe.tick();
    assert_eq!(universe.to_string(), "----\n-QQ-\n-QQ-\n----\n");
}

#[test]
fn a_lonely_cell_dies_and_three_neighbors_give_birth() {
    let mut universe = with_cells(5, 5, &[(2, 2)]);
    universe.tick();
    assert_eq!(universe.to_string(), "-----\n-----\n-----\n-----\n-----\n");
    let mut universe = with_cells(5, 5, &[(1, 1), (1, 3), (3, 2)]);
    universe.tick();
    assert_eq!(universe.to_string(), "-----\n-----\n--Q--\n-----\n-----\n");
}

#[test]
fn a_crowded_cell_dies() {
    let mut universe = with_cells(5, 5, &[(1, 1), (1, 2), (1, 3), (2, 2), (3, 2), (2, 1)]);
    universe.tick();
    assert_eq!(universe.to_string(), "--Q--\n-Q-Q-\n-----\n-QQ--\n-----\n");
}

#[test]
fn the_edges_wrap_around() {
    let mut universe = with_cells(5, 5, &[(0, 0), (0, 4), (4, 0)]);
    universe.tick();
    assert_eq!(universe.to_string(), "Q---Q\n-----\n-----\n-----\nQ---Q\n");
    let mut universe = with_cells(5, 4, &[(0, 1), (0, 2), (0, 3)]);
    universe.tick();
    assert_eq!(universe.to_string(), "--Q--\n--Q--\n-----\n--Q--\n");
}

#[test]
fn a_universe_of_one_cell_counts_that_cell_five_times() {
    let mut universe = with_cells(1, 1, &[(0, 0)]);
    universe.tick();
    assert_eq!(universe.to_string(), "-\n");
    let mut universe = dead(1, 1);
    universe.tick();
    assert_eq!(universe.to_string(), "-\n");
}

#[test]
fn a_universe_of_one_row_counts_each_neighbor_in_the_row_three_times() {
    let mut universe = with_cells(4, 1, &[(0, 1)]);
    universe.tick();
    assert_eq!(universe.to_string(), "Q-Q-\n");
    let mut universe = with_cells(5, 1, &[(0, 1), (0, 2)]);
    universe.tick();
    assert_eq!(universe.to_string(), "Q--Q-\n");
}

#[test]
fn a_universe_without_cells_can_be_stepped() {
    let mut universe = dead(0, 0);
    universe.tick();
    assert_eq!(universe.to_string(), "");
    let mut universe = dead(0, 4);
    universe.tick();
    assert_eq!(universe.to_string(), "\n\n\n\n");
}

#[test]
fn a_world_fills_half_the_columns_and_leaves_three_rows_free() {
    let world = World::new(11, 6);
    assert_eq!(world.status(), Status::Running);
    let screen = world.to_string();
    let lines: Vec<&str> = screen.split('\n').collect();
    assert_eq!(lines[0], "Space for pause, Esc and Ctrl + c for exit");
    assert_eq!(lines[1], "");
    assert_eq!(lines.len(), 2 + 3 + 1);
    for line in &lines[2..5] {
        assert_eq!(line.len(), 5);
        assert!(line.chars().all(|symbol| symbol == 'Q' || symbol == '-'));
    }
    assert_eq!(lines[5], "");
    assert_eq!(
        World::new(0, 3).to_string(),
        "Space for pause, Esc and Ctrl + c for exit\n\n"
    );
}

#[test]
fn rendering_steps_the_universe_and_keeps_the_status() {
    let mut world = World::new(8, 7);
    handle_event(&mut world, Key::Char(' '), false);
    let before = world.to_string();
    let screen = world.render();
    assert_eq!(screen, world.to_string());
    assert_eq!(screen.len(), before.len());
    assert_eq!(world.status(), Status::Pause);
}

#[test]
fn escape_and_control_c_end_the_program() {
    for start in [Key::Other, Key::Char(' ')] {
        let mut world = World::new(4, 4);
        handle_event(&mut world, start, false);
        handle_event(&mut world, Key::Esc, false);
        assert_eq!(world.status(), Status::Over);
    }
    let mut world = World::new(4, 4);
    handle_event(&mut world, Key::Esc, true);
    assert_eq!(world.status(), Status::Over);
    let mut world = World::new(4, 4);
    handle_event(&mut world, Key::Char('c'), true);
    assert_eq!(world.status(), Status::Over);
}

#[test]
fn the_space_bar_pauses_and_resumes() {
    let mut world = World::new(4, 4);
    handle_event(&mut world, Key::Char(' '), false);
    assert_eq!(world.status(), Status::Pause);
    handle_event(&mut world, Key::Char(' '), true);
    assert_eq!(world.status(), Status::Running);
    handle_event(&mut world, Key::Esc, false);
    handle_event(&mut world, Key::Char(' '), false);
    assert_eq!(world.status(), Status::Running);
}

#[test]
fn other_keys_change_nothing() {
    let mut world = World::new(4, 4);
    for key in [Key::Other, Key::Char('c'), Key::Char('x'), Key::Char('C')] {
        handle_event(&mut world, key, false);
        assert_eq!(world.status(), Status::Running);
    }
    handle_event(&mut world, Key::Char('x'), true);
    assert_eq!(world.status(), Status::Running);
    handle_event(&mut world, Key::Char(' '), false);
    handle_event(&mut world, Key::Char('q'), false);
    handle_event(&mut world, Key::Other, true);
    assert_eq!(world.status(), Status::Pause);
}
