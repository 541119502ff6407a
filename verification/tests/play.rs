use sokoban::level::parse_levels;
use sokoban::session::{Command, Reaction, Session};
use sokoban::touch_input::{SwipeDirection, TouchInputHandler};

fn two_levels() -> Session {
    let maps = parse_levels("First\n@$.\n;Second\n @\n;Third\n#@$ .\n");
    Session::new(maps)
}

#[test]
fn moves_apply_until_the_level_is_solved() {
    let mut s = two_levels();
    assert_eq!(s.handle(Command::Right), Reaction::Redraw);
    assert!(s.is_solved());
    assert_eq!(s.handle(Command::Left), Reaction::Ignore);
    assert_eq!((s.current.player.x, s.current.player.y), (1, 0));
    assert_eq!(s.handle(Command::Undo), Reaction::Ignore);
    assert_eq!(s.current.moves(), 1);
}

#[test]
fn undo_and_reset() {
    let mut s = two_levels();
    s.handle(Command::NextLevel);
    assert_eq!(s.index, 0);
    s.handle(Command::Down);
    s.handle(Command::Undo);
    assert_eq!(s.current.moves(), 0);
    s.handle(Command::Right);
    assert_eq!(s.handle(Command::Reset), Reaction::Redraw);
    assert_eq!((s.current.player.x, s.current.cubes[0].x), (0, 1));
    assert_eq!(s.current.moves(), 0);
}

#[test]
fn next_level_goes_round() {
    let mut s = two_levels();
    assert_eq!(s.levels.len(), 3);
    assert!(!s.on_last_level());
    assert_eq!(s.handle(Command::NextLevel), Reaction::Ignore);
    s.handle(Command::Right);
    assert_eq!(s.handle(Command::NextLevel), Reaction::Redraw);
    assert_eq!(s.index, 1);
    assert_eq!(s.current.name, "Second");
    assert!(s.skip_goalless());
    assert_eq!(s.index, 2);
    assert!(s.on_last_level());
    assert!(!s.skip_goalless());
    s.handle(Command::Right);
    s.handle(Command::Right);
    assert!(s.is_solved());
    s.handle(Command::NextLevel);
    assert_eq!(s.index, 0);
    assert_eq!(s.current.name, "First");
}

#[test]
fn quit_changes_nothing() {
    let mut s = two_levels();
    assert_eq!(s.handle(Command::Quit), Reaction::Quit);
    assert_eq!(s.index, 0);
    assert_eq!(s.current.moves(), 0);
}

#[test]
fn swipe_letters() {
    assert_eq!(SwipeDirection::Up.as_char(), 'u');
    assert_eq!(SwipeDirection::Down.as_char(), 'd');
    assert_eq!(SwipeDirection::Left.as_char(), 'l');
    assert_eq!(SwipeDirection::Right.as_char(), 'r');
}

#[test]
fn touches_become_swipes() {
    let mut h = TouchInputHandler::new();
    assert_eq!(h.update(Some((100, 100))), None);
    assert_eq!(h.anchor, Some((100, 100)));
    assert_eq!(h.update(Some((129, 71))), None);
    assert_eq!(h.update(Some((131, 90))), Some(SwipeDirection::Right));
    assert_eq!(h.anchor, Some((131, 90)));
    assert_eq!(h.update(Some((100, 90))), Some(SwipeDirection::Left));
    assert_eq!(h.update(Some((100, 130))), Some(SwipeDirection::Down));
    assert_eq!(h.update(Some((130, 100))), Some(SwipeDirection::Up));
    assert_eq!(h.update(None), None);
    assert_eq!(h.anchor, None);
    assert_eq!(h.update(Some((0, 0))), None);
    assert_eq!(h.update(Some((0, 40))), Some(SwipeDirection::Down));
}
