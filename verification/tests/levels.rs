use sokoban::level::{levels_fit, parse_levels, parse_map};

#[test]
fn named_header_gives_the_name_and_the_map_lines_the_grid() {
    let m = parse_map("  Level 1  ", &["#####", "#@$.#", "#####"]);
    assert_eq!(m.name, "Level 1");
    assert_eq!(m.width, 5);
    assert_eq!(m.height, 3);
    assert_eq!((m.player.x, m.player.y), (1, 1));
    assert_eq!(m.cubes.len(), 1);
    assert_eq!((m.cubes[0].x, m.cubes[0].y), (2, 1));
    assert_eq!(m.buttons.len(), 1);
    assert_eq!((m.buttons[0].x, m.buttons[0].y), (3, 1));
    assert_eq!(m.walls.len(), 12);
    assert_eq!((m.walls[5].x, m.walls[5].y), (0, 1));
    assert_eq!((m.walls[6].x, m.walls[6].y), (4, 1));
    assert_eq!((m.finish.x, m.finish.y), (0, 0));
    assert!(m.player.location_history.is_empty());
}

#[test]
fn header_of_walls_only_is_the_first_row() {
    let m = parse_map("#####", &["#@ .#", "#####"]);
    assert_eq!(m.name, "");
    assert_eq!(m.height, 3);
    assert_eq!((m.player.x, m.player.y), (1, 1));
    assert_eq!(m.walls.len(), 12);
    assert_eq!((m.walls[0].x, m.walls[0].y), (0, 0));
}

#[test]
fn blank_header_is_a_row_not_a_name() {
    let m = parse_map(" \t\u{3000}", &["@"]);
    assert_eq!(m.name, "");
    assert_eq!(m.height, 2);
    assert_eq!(m.width, 3);
    assert_eq!((m.player.x, m.player.y), (0, 1));
}

#[test]
fn width_is_the_longest_row_in_characters() {
    let m = parse_map("x", &["#", "#€@ ", "##"]);
    assert_eq!(m.name, "x");
    assert_eq!(m.width, 4);
    assert_eq!((m.finish.x, m.finish.y), (1, 1));
    assert_eq!((m.player.x, m.player.y), (2, 1));
}

#[test]
fn cube_on_button_and_player_on_button() {
    let m = parse_map("L", &["*+"]);
    assert_eq!(m.cubes.len(), 1);
    assert_eq!((m.cubes[0].x, m.cubes[0].y), (0, 0));
    assert_eq!(m.buttons.len(), 2);
    assert_eq!((m.buttons[0].x, m.buttons[0].y), (0, 0));
    assert_eq!((m.buttons[1].x, m.buttons[1].y), (1, 0));
    assert_eq!((m.player.x, m.player.y), (1, 0));
}

#[test]
fn last_player_mark_wins() {
    let m = parse_map("L", &["@ @", " @ "]);
    assert_eq!((m.player.x, m.player.y), (1, 1));
}

#[test]
fn levels_are_split_at_semicolons() {
    let text = "One\n#@$.#\n;\nTwo\n\n  \n#@#\n";
    let maps = parse_levels(text);
    assert_eq!(maps.len(), 2);
    assert_eq!(maps[0].name, "One");
    assert_eq!(maps[0].height, 1);
    assert_eq!(maps[1].name, "Two");
    assert_eq!(maps[1].height, 1);
    assert_eq!(maps[1].walls.len(), 2);
}

#[test]
fn pieces_without_map_lines_give_no_level() {
    let maps = parse_levels("Only a header\n;\n\n   \n;");
    assert_eq!(maps.len(), 0);
    let maps = parse_levels("");
    assert_eq!(maps.len(), 0);
}

#[test]
fn crlf_line_endings_are_dropped() {
    let maps = parse_levels("Crlf\r\n#@#\r\n##\r\n");
    assert_eq!(maps.len(), 1);
    assert_eq!(maps[0].name, "Crlf");
    assert_eq!(maps[0].width, 3);
    assert_eq!(maps[0].height, 2);
}

#[test]
fn final_carriage_return_without_newline_stays_in_the_row() {
    let maps = parse_levels("Cr\n#@#\r");
    assert_eq!(maps.len(), 1);
    assert_eq!(maps[0].width, 4);
}

#[test]
fn unnamed_level_in_a_set() {
    let maps = parse_levels("\n####\n#@ #\n####\n;x\n@");
    assert_eq!(maps.len(), 2);
    assert_eq!(maps[0].name, "");
    assert_eq!(maps[0].height, 3);
    assert_eq!((maps[0].player.x, maps[0].player.y), (1, 1));
    assert_eq!(maps[1].name, "x");
}

#[test]
fn ordinary_sets_fit_the_coordinates() {
    assert!(levels_fit("One\n#@$.#\n;\nTwo\n#@#\n"));
    assert!(levels_fit(""));
}

#[test]
fn other_characters_are_floor() {
    let a = parse_map("L", &["#@$.x", "*+€ -"]);
    let b = parse_map("L", &["#@$.?", "*+€~%"]);
    assert_eq!((a.width, a.height), (b.width, b.height));
    assert_eq!((a.player.x, a.player.y), (b.player.x, b.player.y));
    assert_eq!((a.finish.x, a.finish.y), (b.finish.x, b.finish.y));
    assert_eq!(a.walls.len(), b.walls.len());
    assert_eq!(a.cubes.len(), b.cubes.len());
    assert_eq!(a.buttons.len(), b.buttons.len());
}
