use sokoban::level::parse_map;

fn corridor() -> sokoban::game::GameMap {
    parse_map("Corridor", &["######", "#@$ .#", "######"])
}

#[test]
fn moving_into_free_cell_records_history() {
    let mut m = parse_map("L", &["#####", "#@  #", "#####"]);
    m.try_move_player('r');
    assert_eq!((m.player.x, m.player.y), (2, 1));
    assert_eq!(m.player.location_history, vec![(1, 1)]);
    assert_eq!(m.moves(), 1);
}

#[test]
fn walls_block_the_player() {
    let mut m = parse_map("L", &["###", "#@#", "###"]);
    for d in ['u', 'd', 'l', 'r'] {
        m.try_move_player(d);
    }
    assert_eq!((m.player.x, m.player.y), (1, 1));
    assert_eq!(m.moves(), 0);
}

#[test]
fn board_edges_block_the_player() {
    let mut m = parse_map("L", &["@ "]);
    m.try_move_player('u');
    m.try_move_player('l');
    m.try_move_player('d');
    assert_eq!((m.player.x, m.player.y), (0, 0));
    assert_eq!(m.moves(), 0);
}

#[test]
fn pushing_a_cube_moves_it_and_records_every_object() {
    let mut m = corridor();
    m.try_move_player('r');
    assert_eq!((m.player.x, m.player.y), (2, 1));
    assert_eq!((m.cubes[0].x, m.cubes[0].y), (3, 1));
    assert_eq!(m.cubes[0].location_history, vec![(2, 1)]);
    assert!(!m.all_objectives_met());
    m.try_move_player('r');
    assert_eq!((m.cubes[0].x, m.cubes[0].y), (4, 1));
    assert!(m.all_buttons_pressed());
    assert!(m.all_objectives_met());
}

#[test]
fn cube_against_a_wall_blocks_the_push() {
    let mut m = parse_map("L", &["####", "#@$#", "####"]);
    m.try_move_player('r');
    assert_eq!((m.player.x, m.player.y), (1, 1));
    assert_eq!((m.cubes[0].x, m.cubes[0].y), (2, 1));
    assert_eq!(m.moves(), 0);
}

#[test]
fn cube_against_a_cube_blocks_the_push() {
    let mut m = parse_map("L", &["@$$ "]);
    m.try_move_player('r');
    assert_eq!((m.player.x, m.player.y), (0, 0));
    assert_eq!((m.cubes[0].x, m.cubes[1].x), (1, 2));
}

#[test]
fn cube_at_the_edge_blocks_the_push() {
    let mut m = parse_map("L", &["@$"]);
    m.try_move_player('r');
    assert_eq!((m.player.x, m.cubes[0].x), (0, 1));
}

#[test]
fn unknown_direction_counts_a_move_in_place() {
    let mut m = parse_map("L", &["@ "]);
    m.try_move_player('x');
    assert_eq!((m.player.x, m.player.y), (0, 0));
    assert_eq!(m.moves(), 1);
}

#[test]
fn try_move_cube_reports_whether_it_moved() {
    let mut m = corridor();
    assert!(m.try_move_cube(0, 'r'));
    assert_eq!((m.cubes[0].x, m.cubes[0].y), (3, 1));
    assert!(m.cubes[0].location_history.is_empty());
    assert!(!m.try_move_cube(0, 'u'));
    assert_eq!((m.cubes[0].x, m.cubes[0].y), (3, 1));
}

#[test]
fn undo_takes_back_the_last_move() {
    let mut m = corridor();
    m.try_move_player('r');
    m.undo();
    assert_eq!((m.player.x, m.player.y), (1, 1));
    assert_eq!((m.cubes[0].x, m.cubes[0].y), (2, 1));
    assert!(m.player.location_history.is_empty());
    assert!(m.cubes[0].location_history.is_empty());
}

#[test]
fn undo_without_history_changes_nothing() {
    let mut m = corridor();
    m.undo();
    assert_eq!((m.player.x, m.player.y), (1, 1));
    assert_eq!((m.cubes[0].x, m.cubes[0].y), (2, 1));
    assert_eq!(m.moves(), 0);
}

#[test]
fn two_moves_two_undos() {
    let mut m = parse_map("L", &["@$  ."]);
    m.try_move_player('r');
    m.try_move_player('r');
    assert_eq!((m.player.x, m.cubes[0].x), (2, 3));
    m.undo();
    assert_eq!((m.player.x, m.cubes[0].x), (1, 2));
    m.undo();
    assert_eq!((m.player.x, m.cubes[0].x), (0, 1));
}

#[test]
fn finish_counts_only_when_present() {
    let mut m = parse_map("L", &["   ", " @€"]);
    assert!(m.has_finish());
    assert!(!m.finish_reached());
    m.try_move_player('r');
    assert!(m.finish_reached());
    assert!(m.all_objectives_met());
    let m = parse_map("L", &["@ "]);
    assert!(!m.has_finish());
    assert!(m.finish_reached());
    assert!(m.all_objectives_met());
}

#[test]
fn finish_on_first_row_is_not_a_finish() {
    let m = parse_map("L", &["€@"]);
    assert_eq!((m.finish.x, m.finish.y), (0, 0));
    let m = parse_map("L", &[" €", " @"]);
    assert_eq!((m.finish.x, m.finish.y), (1, 0));
    assert!(!m.has_finish());
}

#[test]
fn has_cubes_and_buttons() {
    let m = corridor();
    assert!(m.has_cubes());
    assert!(m.has_buttons());
    let m = parse_map("L", &["@"]);
    assert!(!m.has_cubes());
    assert!(!m.has_buttons());
    assert!(m.all_buttons_pressed());
}

#[test]
fn copied_map_is_independent() {
    let mut m = corridor();
    let c = m.copied();
    m.try_move_player('r');
    assert_eq!((c.player.x, c.cubes[0].x), (1, 2));
    assert_eq!(c.name, "Corridor");
    assert_eq!(c.walls.len(), m.walls.len());
}

#[test]
fn as_many_undos_as_moves_restore_the_start() {
    let mut m = parse_map("L", &["      ", " @$ . ", "      "]);
    for d in ['r', 'd', 'l', 'u', 'u', 'r'] {
        m.try_move_player(d);
    }
    assert_eq!(m.moves(), 6);
    for _ in 0..6 {
        m.undo();
    }
    assert_eq!((m.player.x, m.player.y), (1, 1));
    assert_eq!((m.cubes[0].x, m.cubes[0].y), (2, 1));
    assert!(m.player.location_history.is_empty());
    assert!(m.cubes[0].location_history.is_empty());
}
