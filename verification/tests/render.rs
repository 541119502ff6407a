use sokoban::colorize::{ConsoleGlyph, Stylize};
use sokoban::level::parse_map;
use sokoban::render::{format_help_text, help_text_with, render, render_with, Palette};

fn letters() -> Palette {
    Palette {
        player_on_finish: "P".to_string(),
        player: "K".to_string(),
        cube_on_button: "O".to_string(),
        cube: "o".to_string(),
        button: "x".to_string(),
        finish_open: "F".to_string(),
        finish_closed: "f".to_string(),
        wall: "#".to_string(),
    }
}

fn painted(c: char, code: &str, s: &str) -> bool {
    let on = format!("\x1b[38;5;{}m", code);
    let off = "\x1b[39m";
    let plain = "\x1b[m";
    [
        format!("{}{}{}", on, c, off),
        format!("{}{}{}", on, c, plain),
        format!("{}{}{}", plain, c, off),
        format!("{}{}{}", plain, c, plain),
    ]
    .iter()
    .any(|t| t == s)
        || s.is_empty()
}

#[test]
fn stylize_paints_in_crossterm_colours() {
    assert!(painted('K', "11", &'K'.yellow()));
    assert!(painted('O', "10", &'O'.green()));
    assert!(painted('o', "12", &'o'.blue()));
    assert!(painted('x', "9", &'x'.red()));
    assert!(painted('#', "7", &'#'.grey()));
}

#[test]
fn board_is_drawn_row_by_row() {
    let m = parse_map("L", &["#####", "#@$.#", "#  *#", "#####"]);
    let out = render_with(&m, &letters());
    assert_eq!(out, "#####\r\n#Kox#\r\n#  O#\r\n#####\r\n");
}

#[test]
fn finish_shows_whether_buttons_are_pressed() {
    let m = parse_map("L", &["    ", " @.€", "  $ "]);
    assert_eq!(render_with(&m, &letters()), "    \r\n Kxf\r\n  o \r\n");
    let m = parse_map("L", &["    ", " @*€"]);
    assert_eq!(render_with(&m, &letters()), "    \r\n KOF\r\n");
    let mut m = parse_map("L", &["   ", " @€"]);
    m.try_move_player('r');
    assert_eq!(render_with(&m, &letters()), "   \r\n  P\r\n");
}

#[test]
fn player_hides_what_is_below() {
    let m = parse_map("L", &["+#"]);
    assert_eq!(render_with(&m, &letters()), "K#\r\n");
}

#[test]
fn render_paints_the_symbols() {
    let m = parse_map("L", &["#@"]);
    let out = render(&m);
    assert_eq!(out, format!("{}{}\r\n", '#'.grey(), 'K'.yellow()));
    assert_eq!(out, render_with(&m, &Palette::styled()));
}

#[test]
fn legend_lists_what_the_level_has() {
    let p = letters();
    let m = parse_map("L", &["    ", " @$.", "  €#"]);
    assert_eq!(
        help_text_with(&m, &p),
        "K: Player    o: Cube\r\nx: Button    O: Cube on Button\r\n#: Wall      F: Finish"
    );
    let m = parse_map("L", &["@$."]);
    assert_eq!(
        help_text_with(&m, &p),
        "K: Player    o: Cube\r\nx: Button    O: Cube on Button\r\n#: Wall\r"
    );
    let m = parse_map("L", &["   ", " @€"]);
    assert_eq!(help_text_with(&m, &p), "K: Player    #: Wall\r\nF: Finish");
    let m = parse_map("L", &["@"]);
    assert_eq!(help_text_with(&m, &p), "K: Player    #: Wall\r");
    let m = parse_map("L", &["@."]);
    assert_eq!(help_text_with(&m, &p), "K: Player    x: Button\r\n#: Wall");
    let m = parse_map("L", &["@$"]);
    assert_eq!(help_text_with(&m, &p), "K: Player    o: Cube\r\n#: Wall");
    let m = parse_map("L", &["   ", "@$€"]);
    assert_eq!(help_text_with(&m, &p), "K: Player    o: Cube\r\n#: Wall      F: Finish");
    let m = parse_map("L", &["   ", "@.€"]);
    assert_eq!(help_text_with(&m, &p), "K: Player    x: Button\r\n#: Wall      F: Finish");
}

#[test]
fn legend_in_colour_keeps_the_layout() {
    let m = parse_map("L", &["@"]);
    let out = format_help_text(&m);
    assert!(out.contains(": Player    "));
    assert!(out.ends_with(": Wall\r"));
}

#[test]
fn console_glyphs_use_the_handheld_codes() {
    assert_eq!(ConsoleGlyph('K').yellow(), "\x1b[93mK\x1b[0m");
    assert_eq!(ConsoleGlyph('K').green(), "\x1b[92mK\x1b[0m");
    assert_eq!(ConsoleGlyph('o').blue(), "\x1b[36mo\x1b[0m");
    assert_eq!(ConsoleGlyph('x').red(), "\x1b[91mx\x1b[0m");
    assert_eq!(ConsoleGlyph('#').grey(), "\x1b[90m#\x1b[0m");
}

#[test]
fn console_palette_draws_the_board() {
    let m = parse_map("L", &["#@ "]);
    assert_eq!(
        render_with(&m, &Palette::console()),
        "\x1b[90m#\x1b[0m\x1b[93mK\x1b[0m \r\n"
    );
}

#[test]
fn order_of_objects_does_not_change_the_board() {
    let a = parse_map("A", &["#$.", "@*#"]);
    let mut b = parse_map("B", &["#$.", "@*#"]);
    b.cubes.reverse();
    b.buttons.reverse();
    b.walls.reverse();
    b.player.location_history.push((0, 0));
    assert_eq!(render_with(&a, &letters()), render_with(&b, &letters()));
}
