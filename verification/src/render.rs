use vstd::prelude::*;
use crate::colorize::{
    ConsoleGlyph, Stylize, blue_code, console_painted, green_code, grey_code, painted, plain_sgr,
    red_code, reset_fg, set_fg, yellow_code,
};
use crate::game::{GameMap, cube_cells, cube_on, some_cube_on};
use crate::level::{button_cells, wall_cells};

verus! {

/// The text drawn for each kind of board cell.
pub struct Palette {
    pub player_on_finish: String,
    pub player: String,
    pub cube_on_button: String,
    pub cube: String,
    pub button: String,
    pub finish_open: String,
    pub finish_closed: String,
    pub wall: String,
}

impl Palette {
    /// The game's symbols in their terminal colours: the player 'K' (green on
    /// the finish, yellow elsewhere), a cube 'o' (blue; 'O' green on a button),
    /// a button 'x' (red), the finish 'F' (blue once every button is pressed,
    /// red before), a wall '#' (grey); each text as crossterm paints it.
    pub open spec fn all_painted(self) -> bool {
        &&& painted('K', green_code(), self.player_on_finish@)
        &&& painted('K', yellow_code(), self.player@)
        &&& painted('O', green_code(), self.cube_on_button@)
        &&& painted('o', blue_code(), self.cube@)
        &&& painted('x', red_code(), self.button@)
        &&& painted('F', blue_code(), self.finish_open@)
        &&& painted('F', red_code(), self.finish_closed@)
        &&& painted('#', grey_code(), self.wall@)
    }

    /// Every text of the palette is empty.
    pub open spec fn is_blank(self) -> bool {
        &&& self.player_on_finish@.len() == 0
        &&& self.player@.len() == 0
        &&& self.cube_on_button@.len() == 0
        &&& self.cube@.len() == 0
        &&& self.button@.len() == 0
        &&& self.finish_open@.len() == 0
        &&& self.finish_closed@.len() == 0
        &&& self.wall@.len() == 0
    }

    /// The symbols painted in colour, none of them empty.
    pub open spec fn is_colored(self) -> bool {
        &&& self.all_painted()
        &&& !(self.player_on_finish@.len() == 0)
        &&& !(self.player@.len() == 0)
        &&& !(self.cube_on_button@.len() == 0)
        &&& !(self.cube@.len() == 0)
        &&& !(self.button@.len() == 0)
        &&& !(self.finish_open@.len() == 0)
        &&& !(self.finish_closed@.len() == 0)
        &&& !(self.wall@.len() == 0)
    }

    /// What crossterm gives for the game's symbols: all of them painted, or,
    /// on a Windows output without escape-code support, all of them empty.
    /// crossterm decides that support once per process
    /// (`ansi_support::supports_ansi`), so it never empties some and paints
    /// others.
    pub open spec fn is_styled(self) -> bool {
        self.is_colored() || self.is_blank()
    }

    /// The palette whose texts are all empty.
    fn blank() -> (p: Palette)
        ensures
            p.is_blank(),
    {
        Palette {
            player_on_finish: String::new(),
            player: String::new(),
            cube_on_button: String::new(),
            cube: String::new(),
            button: String::new(),
            finish_open: String::new(),
            finish_closed: String::new(),
            wall: String::new(),
        }
    }

    /// The game's symbols, styled for the terminal. Should crossterm answer
    /// any symbol with nothing (its output supports no escape codes), the
    /// palette is the blank one, as every symbol would be answered so.
    pub fn styled() -> (p: Palette)
        ensures
            p.is_styled(),
    {
        let p = Palette {
            player_on_finish: 'K'.green(),
            player: 'K'.yellow(),
            cube_on_button: 'O'.green(),
            cube: 'o'.blue(),
            button: 'x'.red(),
            finish_open: 'F'.blue(),
            finish_closed: 'F'.red(),
            wall: '#'.grey(),
        };
        if p.player_on_finish.as_str().is_empty() || p.player.as_str().is_empty()
            || p.cube_on_button.as_str().is_empty() || p.cube.as_str().is_empty()
            || p.button.as_str().is_empty() || p.finish_open.as_str().is_empty()
            || p.finish_closed.as_str().is_empty() || p.wall.as_str().is_empty() {
            Palette::blank()
        } else {
            p
        }
    }

    /// The same symbols in the colours of the handheld's console: 'K' green on
    /// the finish and yellow elsewhere, 'O' green, 'o' cyan, 'x' red, 'F' cyan
    /// once every button is pressed and red before, '#' grey.
    pub open spec fn is_console_styled(self) -> bool {
        &&& console_painted('K', seq!['9', '2'], self.player_on_finish@)
        &&& console_painted('K', seq!['9', '3'], self.player@)
        &&& console_painted('O', seq!['9', '2'], self.cube_on_button@)
        &&& console_painted('o', seq!['3', '6'], self.cube@)
        &&& console_painted('x', seq!['9', '1'], self.button@)
        &&& console_painted('F', seq!['3', '6'], self.finish_open@)
        &&& console_painted('F', seq!['9', '1'], self.finish_closed@)
        &&& console_painted('#', seq!['9', '0'], self.wall@)
    }

    /// The game's symbols, styled for the handheld's console.
    pub fn console() -> (p: Palette)
        ensures
            p.is_console_styled(),
    {
        Palette {
            player_on_finish: ConsoleGlyph('K').green(),
            player: ConsoleGlyph('K').yellow(),
            cube_on_button: ConsoleGlyph('O').green(),
            cube: ConsoleGlyph('o').blue(),
            button: ConsoleGlyph('x').red(),
            finish_open: ConsoleGlyph('F').blue(),
            finish_closed: ConsoleGlyph('F').red(),
            wall: ConsoleGlyph('#').grey(),
        }
    }
}

/// A button stands on `(x, y)`.
pub open spec fn button_at(m: GameMap, x: int, y: int) -> bool {
    exists|b: int|
        0 <= b < m.buttons@.len() && #[trigger] m.buttons@[b].x == x && m.buttons@[b].y == y
}

/// The text of cell `(x, y)`: the player first (on the finish or not), then a
/// cube (on a button or not), a button, the finish, a wall, and a space for an
/// empty cell.
pub open spec fn cell_text(m: GameMap, p: Palette, x: int, y: int) -> Seq<char> {
    let has_player = x == m.player.x && y == m.player.y;
    let has_cube = some_cube_on(m.cubes@, x, y);
    let has_button = button_at(m, x, y);
    let has_finish = x == m.finish.x && y == m.finish.y && x != 0 && y != 0;
    if has_player && has_finish {
        p.player_on_finish@
    } else if has_player {
        p.player@
    } else if has_cube && has_button {
        p.cube_on_button@
    } else if has_cube {
        p.cube@
    } else if has_button {
        p.button@
    } else if has_finish {
        if m.spec_all_buttons_pressed() {
            p.finish_open@
        } else {
            p.finish_closed@
        }
    } else if m.wall_at(x, y) {
        p.wall@
    } else {
        seq![' ']
    }
}

/// The text of the first `w` cells of row `y`.
pub open spec fn row_text(m: GameMap, p: Palette, y: int, w: int) -> Seq<char>
    decreases w,
{
    if w <= 0 {
        Seq::empty()
    } else {
        row_text(m, p, y, w - 1) + cell_text(m, p, w - 1, y)
    }
}

/// The text of the first `h` rows of the board, each ended by "\r\n".
pub open spec fn board_text(m: GameMap, p: Palette, h: int) -> Seq<char>
    decreases h,
{
    if h <= 0 {
        Seq::empty()
    } else {
        board_text(m, p, h - 1) + row_text(m, p, h - 1, m.width as int) + seq!['\r', '\n']
    }
}

/// Whether a button stands on `(x, y)`.
fn has_button_at(m: &GameMap, x: i32, y: i32) -> (r: bool)
    ensures
        r == button_at(*m, x as int, y as int),
{
    let mut b: usize = 0;
    while b < m.buttons.len()
        invariant
            b <= m.buttons@.len(),
            forall|k: int| 0 <= k < b ==> !(m.buttons@[k].x == x && m.buttons@[k].y == y),
        decreases m.buttons@.len() - b,
    {
        if m.buttons[b].x == x && m.buttons[b].y == y {
            return true;
        }
        b = b + 1;
    }
    false
}

/// The board of `map` drawn with the texts of `palette`, row by row.
#[verifier::loop_isolation(false)]
pub fn render_with(map: &GameMap, palette: &Palette) -> (out: String)
    ensures
        out@ == board_text(*map, *palette, map.height as int),
{
    let mut out = String::new();
    let pressed = map.all_buttons_pressed();
    let mut y: i32 = 0;
    while y < map.height
        invariant
            0 <= y,
            y <= map.height || map.height < 0,
            y < map.height || y == 0 || y == map.height,
            out@ == board_text(*map, *palette, y as int),
        decreases map.height - y,
    {
        let mut x: i32 = 0;
        let ghost done = out@;
        while x < map.width
            invariant
                0 <= x,
                x <= map.width || x == 0,
                0 <= y < map.height,
                out@ == done + row_text(*map, *palette, y as int, x as int),
            decreases map.width - x,
        {
            let has_player = x == map.player.x && y == map.player.y;
            let has_cube = match map.cube_index_at(x, y) {
                Some(i) => {
                    assert(crate::game::cube_on(map.cubes@, i as int, x as int, y as int));
                    true
                },
                None => false,
            };
            let has_button = has_button_at(map, x, y);
            let has_finish = x == map.finish.x && y == map.finish.y && x != 0 && y != 0;
            let ghost before = out@;
            if has_player && has_finish {
                out.append(palette.player_on_finish.as_str());
            } else if has_player {
                out.append(palette.player.as_str());
            } else if has_cube && has_button {
                out.append(palette.cube_on_button.as_str());
            } else if has_cube {
                out.append(palette.cube.as_str());
            } else if has_button {
                out.append(palette.button.as_str());
            } else if has_finish {
                if pressed {
                    out.append(palette.finish_open.as_str());
                } else {
                    out.append(palette.finish_closed.as_str());
                }
            } else if map.has_wall_at(x, y) {
                out.append(palette.wall.as_str());
            } else {
                out.append(" ");
                proof {
                    reveal_strlit(" ");
                }
            }
            assert(out@ == before + cell_text(*map, *palette, x as int, y as int));
            x = x + 1;
            assert(out@ =~= done + row_text(*map, *palette, y as int, x as int));
        }
        assert(x == map.width || map.width <= 0);
        assert(row_text(*map, *palette, y as int, x as int) == row_text(
            *map,
            *palette,
            y as int,
            map.width as int,
        ));
        out.append("\r\n");
        proof {
            reveal_strlit("\r\n");
        }
        y = y + 1;
        assert(out@ =~= board_text(*map, *palette, y as int));
    }
    if map.height < 0 {
        assert(board_text(*map, *palette, map.height as int) =~= Seq::<char>::empty());
    }
    out
}

/// The board of `map` as terminal text: the symbol of each cell in its colour,
/// row by row, each row ended by "\r\n".
pub fn render(map: &GameMap) -> (out: String)
    ensures
        exists|p: Palette| p.is_styled() && out@ == board_text(*map, p, map.height as int),
{
    let palette = Palette::styled();
    render_with(map, &palette)
}

/// The legend under the board: one entry per kind of object the level has
/// (the player and walls always; cubes, buttons and the finish when present).
pub open spec fn help_text(m: GameMap, p: Palette) -> Seq<char> {
    let f = m.spec_has_finish();
    let c = m.cubes@.len() > 0;
    let b = m.buttons@.len() > 0;
    if f && c && b {
        p.player@ + ": Player    "@ + p.cube@ + ": Cube\r\n"@ + p.button@ + ": Button    "@
            + p.cube_on_button@ + ": Cube on Button\r\n"@ + p.wall@ + ": Wall      "@
            + p.finish_open@ + ": Finish"@
    } else if !f && c && b {
        p.player@ + ": Player    "@ + p.cube@ + ": Cube\r\n"@ + p.button@ + ": Button    "@
            + p.cube_on_button@ + ": Cube on Button\r\n"@ + p.wall@ + ": Wall\r"@
    } else if f && !c && b {
        p.player@ + ": Player    "@ + p.button@ + ": Button\r\n"@ + p.wall@ + ": Wall      "@
            + p.finish_open@ + ": Finish"@
    } else if f && c && !b {
        p.player@ + ": Player    "@ + p.cube@ + ": Cube\r\n"@ + p.wall@ + ": Wall      "@
            + p.finish_open@ + ": Finish"@
    } else if !f && !c && b {
        p.player@ + ": Player    "@ + p.button@ + ": Button\r\n"@ + p.wall@ + ": Wall"@
    } else if !f && c && !b {
        p.player@ + ": Player    "@ + p.cube@ + ": Cube\r\n"@ + p.wall@ + ": Wall"@
    } else if f && !c && !b {
        p.player@ + ": Player    "@ + p.wall@ + ": Wall\r\n"@ + p.finish_open@ + ": Finish"@
    } else {
        p.player@ + ": Player    "@ + p.wall@ + ": Wall\r"@
    }
}

/// The legend for `map` drawn with the texts of `palette`.
pub fn help_text_with(map: &GameMap, palette: &Palette) -> (out: String)
    ensures
        out@ == help_text(*map, *palette),
{
    let f = map.has_finish();
    let c = map.has_cubes();
    let b = map.has_buttons();
    let mut out = String::new();
    out.append(palette.player.as_str());
    out.append(": Player    ");
    if f && c && b {
        out.append(palette.cube.as_str());
        out.append(": Cube\r\n");
        out.append(palette.button.as_str());
        out.append(": Button    ");
        out.append(palette.cube_on_button.as_str());
        out.append(": Cube on Button\r\n");
        out.append(palette.wall.as_str());
        out.append(": Wall      ");
        out.append(palette.finish_open.as_str());
        out.append(": Finish");
    } else if !f && c && b {
        out.append(palette.cube.as_str());
        out.append(": Cube\r\n");
        out.append(palette.button.as_str());
        out.append(": Button    ");
        out.append(palette.cube_on_button.as_str());
        out.append(": Cube on Button\r\n");
        out.append(palette.wall.as_str());
        out.append(": Wall\r");
    } else if f && !c && b {
        out.append(palette.button.as_str());
        out.append(": Button\r\n");
        out.append(palette.wall.as_str());
        out.append(": Wall      ");
        out.append(palette.finish_open.as_str());
        out.append(": Finish");
    } else if f && c && !b {
        out.append(palette.cube.as_str());
        out.append(": Cube\r\n");
        out.append(palette.wall.as_str());
        out.append(": Wall      ");
        out.append(palette.finish_open.as_str());
        out.append(": Finish");
    } else if !f && !c && b {
        out.append(palette.button.as_str());
        out.append(": Button\r\n");
        out.append(palette.wall.as_str());
        out.append(": Wall");
    } else if !f && c && !b {
        out.append(palette.cube.as_str());
        out.append(": Cube\r\n");
        out.append(palette.wall.as_str());
        out.append(": Wall");
    } else if f && !c && !b {
        out.append(palette.wall.as_str());
        out.append(": Wall\r\n");
        out.append(palette.finish_open.as_str());
        out.append(": Finish");
    } else {
        out.append(palette.wall.as_str());
        out.append(": Wall\r");
    }
    assert(out@ =~= help_text(*map, *palette));
    out
}

/// The legend for `map` as terminal text.
pub fn format_help_text(map: &GameMap) -> (out: String)
    ensures
        exists|p: Palette| p.is_styled() && out@ == help_text(*map, p),
{
    let palette = Palette::styled();
    help_text_with(map, &palette)
}

/// `a` and `b` show the same board: same size, player and finish, and the same
/// cells hold cubes, buttons and walls, in whatever order the maps list them.
/// Names and histories may differ.
pub open spec fn same_board(a: GameMap, b: GameMap) -> bool {
    &&& a.width == b.width
    &&& a.height == b.height
    &&& a.player.x == b.player.x
    &&& a.player.y == b.player.y
    &&& a.finish == b.finish
    &&& cube_cells(a.cubes@).to_set() == cube_cells(b.cubes@).to_set()
    &&& button_cells(a.buttons@).to_set() == button_cells(b.buttons@).to_set()
    &&& wall_cells(a.walls@).to_set() == wall_cells(b.walls@).to_set()
}

/// Maps that show the same board have cubes, buttons and walls on the same cells.
proof fn lemma_same_board_cells(a: GameMap, b: GameMap, x: int, y: int)
    requires
        same_board(a, b),
    ensures
        some_cube_on(a.cubes@, x, y) == some_cube_on(b.cubes@, x, y),
        button_at(a, x, y) == button_at(b, x, y),
        a.wall_at(x, y) == b.wall_at(x, y),
{
    if some_cube_on(a.cubes@, x, y) {
        lemma_cube_side(a, b, x, y);
    }
    if some_cube_on(b.cubes@, x, y) {
        lemma_cube_side(b, a, x, y);
    }
    if button_at(a, x, y) {
        lemma_button_side(a, b, x, y);
    }
    if button_at(b, x, y) {
        lemma_button_side(b, a, x, y);
    }
    if a.wall_at(x, y) {
        lemma_wall_side(a, b, x, y);
    }
    if b.wall_at(x, y) {
        lemma_wall_side(b, a, x, y);
    }
}

/// A cube on `(x, y)` in `a` has a counterpart in `b`.
proof fn lemma_cube_side(a: GameMap, b: GameMap, x: int, y: int)
    requires
        cube_cells(a.cubes@).to_set() == cube_cells(b.cubes@).to_set(),
        some_cube_on(a.cubes@, x, y),
    ensures
        some_cube_on(b.cubes@, x, y),
{
    let i = choose|i: int| 0 <= i < a.cubes@.len() && #[trigger] cube_on(a.cubes@, i, x, y);
    let c = cube_cells(a.cubes@)[i];
    assert(cube_cells(a.cubes@).contains(c));
    assert(cube_cells(a.cubes@).to_set().contains(c));
    assert(cube_cells(b.cubes@).contains(c));
    let j = choose|j: int| 0 <= j < cube_cells(b.cubes@).len() && cube_cells(b.cubes@)[j] == c;
    assert(cube_on(b.cubes@, j, x, y));
}

/// A button on `(x, y)` in `a` has a counterpart in `b`.
proof fn lemma_button_side(a: GameMap, b: GameMap, x: int, y: int)
    requires
        button_cells(a.buttons@).to_set() == button_cells(b.buttons@).to_set(),
        button_at(a, x, y),
    ensures
        button_at(b, x, y),
{
    let i = choose|i: int|
        0 <= i < a.buttons@.len() && #[trigger] a.buttons@[i].x == x && a.buttons@[i].y == y;
    let c = button_cells(a.buttons@)[i];
    assert(button_cells(a.buttons@).contains(c));
    assert(button_cells(a.buttons@).to_set().contains(c));
    assert(button_cells(b.buttons@).contains(c));
    let j = choose|j: int| 0 <= j < button_cells(b.buttons@).len() && button_cells(b.buttons@)[j] == c;
    assert(b.buttons@[j].x == x && b.buttons@[j].y == y);
}

/// A wall on `(x, y)` in `a` has a counterpart in `b`.
proof fn lemma_wall_side(a: GameMap, b: GameMap, x: int, y: int)
    requires
        wall_cells(a.walls@).to_set() == wall_cells(b.walls@).to_set(),
        a.wall_at(x, y),
    ensures
        b.wall_at(x, y),
{
    let i = choose|i: int|
        0 <= i < a.walls@.len() && #[trigger] a.walls@[i].x == x && a.walls@[i].y == y;
    let c = wall_cells(a.walls@)[i];
    assert(wall_cells(a.walls@).contains(c));
    assert(wall_cells(a.walls@).to_set().contains(c));
    assert(wall_cells(b.walls@).contains(c));
    let j = choose|j: int| 0 <= j < wall_cells(b.walls@).len() && wall_cells(b.walls@)[j] == c;
    assert(b.walls@[j].x == x && b.walls@[j].y == y);
}

/// Maps that show the same board agree on whether every button is pressed.
proof fn lemma_same_board_pressed(a: GameMap, b: GameMap)
    requires
        same_board(a, b),
    ensures
        a.spec_all_buttons_pressed() == b.spec_all_buttons_pressed(),
{
    if a.spec_all_buttons_pressed() {
        assert forall|k: int| 0 <= k < b.buttons@.len() implies some_cube_on(
            b.cubes@,
            (#[trigger] b.buttons@[k]).x as int,
            b.buttons@[k].y as int,
        ) by {
            let (x, y) = (b.buttons@[k].x as int, b.buttons@[k].y as int);
            assert(button_at(b, x, y));
            lemma_same_board_cells(a, b, x, y);
            let i = choose|i: int|
                0 <= i < a.buttons@.len() && #[trigger] a.buttons@[i].x == x && a.buttons@[i].y == y;
            assert(some_cube_on(a.cubes@, a.buttons@[i].x as int, a.buttons@[i].y as int));
        }
    }
    if b.spec_all_buttons_pressed() {
        assert forall|k: int| 0 <= k < a.buttons@.len() implies some_cube_on(
            a.cubes@,
            (#[trigger] a.buttons@[k]).x as int,
            a.buttons@[k].y as int,
        ) by {
            let (x, y) = (a.buttons@[k].x as int, a.buttons@[k].y as int);
            assert(button_at(a, x, y));
            lemma_same_board_cells(a, b, x, y);
            let i = choose|i: int|
                0 <= i < b.buttons@.len() && #[trigger] b.buttons@[i].x == x && b.buttons@[i].y == y;
            assert(some_cube_on(b.cubes@, b.buttons@[i].x as int, b.buttons@[i].y as int));
        }
    }
}

/// Rows whose cells draw alike draw alike.
proof fn lemma_same_board_rows(a: GameMap, b: GameMap, p: Palette, y: int, w: int)
    requires
        forall|x: int| #[trigger] cell_text(a, p, x, y) == cell_text(b, p, x, y),
    ensures
        row_text(a, p, y, w) == row_text(b, p, y, w),
    decreases w,
{
    if w > 0 {
        lemma_same_board_rows(a, b, p, y, w - 1);
        assert(cell_text(a, p, w - 1, y) == cell_text(b, p, w - 1, y));
    }
}

/// Boards whose cells draw alike draw alike.
proof fn lemma_same_board_text(a: GameMap, b: GameMap, p: Palette, h: int)
    requires
        a.width == b.width,
        forall|x: int, y: int| #[trigger] cell_text(a, p, x, y) == cell_text(b, p, x, y),
    ensures
        board_text(a, p, h) == board_text(b, p, h),
    decreases h,
{
    if h > 0 {
        lemma_same_board_text(a, b, p, h - 1);
        lemma_same_board_rows(a, b, p, h - 1, a.width as int);
    }
}

/// The board as drawn depends on the board alone: reordering the cubes,
/// buttons and walls, renaming the level or changing the histories leaves it
/// as it was.
pub proof fn lemma_render_sees_only_the_board(a: GameMap, b: GameMap, p: Palette)
    requires
        same_board(a, b),
    ensures
        board_text(a, p, a.height as int) == board_text(b, p, b.height as int),
{
    lemma_same_board_pressed(a, b);
    assert forall|x: int, y: int| #[trigger] cell_text(a, p, x, y) == cell_text(b, p, x, y) by {
        lemma_same_board_cells(a, b, x, y);
    }
    lemma_same_board_text(a, b, p, a.height as int);
}

/// `s` occurs in `t` as a stretch of consecutive characters.
pub open spec fn occurs(t: Seq<char>, s: Seq<char>) -> bool {
    exists|i: int| 0 <= i && i + s.len() <= t.len() && #[trigger] t.subrange(i, i + s.len()) == s
}

/// A symbol text `s` followed by a label `big` that starts with `l` shows
/// `s + l`.
proof fn lemma_entry(a: Seq<char>, s: Seq<char>, big: Seq<char>, b: Seq<char>, l: Seq<char>)
    requires
        l.len() <= big.len(),
        big.subrange(0, l.len() as int) == l,
    ensures
        occurs(a + s + big + b, s + l),
{
    let t = a + s + big + b;
    let i = a.len() as int;
    assert(t.subrange(i, i + (s + l).len()) =~= s + l);
}

/// Each label of the legend begins with the name of its entry.
proof fn lemma_label_prefixes()
    ensures
        ": Player    "@.len() >= ": Player"@.len(),
        ": Cube\r\n"@.len() >= ": Cube"@.len(),
        ": Button    "@.len() >= ": Button"@.len(),
        ": Cube on Button\r\n"@.len() >= ": Cube on Button"@.len(),
        ": Wall      "@.len() >= ": Wall"@.len(),
        ": Finish"@.len() >= ": Finish"@.len(),
        ": Wall\r"@.len() >= ": Wall"@.len(),
        ": Button\r\n"@.len() >= ": Button"@.len(),
        ": Wall"@.len() >= ": Wall"@.len(),
        ": Wall\r\n"@.len() >= ": Wall"@.len(),
        ": Player    "@.subrange(0, ": Player"@.len() as int) == ": Player"@,
        ": Cube\r\n"@.subrange(0, ": Cube"@.len() as int) == ": Cube"@,
        ": Button    "@.subrange(0, ": Button"@.len() as int) == ": Button"@,
        ": Cube on Button\r\n"@.subrange(0, ": Cube on Button"@.len() as int) == ": Cube on Button"@,
        ": Wall      "@.subrange(0, ": Wall"@.len() as int) == ": Wall"@,
        ": Finish"@.subrange(0, ": Finish"@.len() as int) == ": Finish"@,
        ": Wall\r"@.subrange(0, ": Wall"@.len() as int) == ": Wall"@,
        ": Button\r\n"@.subrange(0, ": Button"@.len() as int) == ": Button"@,
        ": Wall"@.subrange(0, ": Wall"@.len() as int) == ": Wall"@,
        ": Wall\r\n"@.subrange(0, ": Wall"@.len() as int) == ": Wall"@,
{
    reveal_strlit(": Button    ");
    reveal_strlit(": Button");
    reveal_strlit(": Button\r\n");
    reveal_strlit(": Cube on Button");
    reveal_strlit(": Cube on Button\r\n");
    reveal_strlit(": Cube");
    reveal_strlit(": Cube\r\n");
    reveal_strlit(": Finish");
    reveal_strlit(": Player    ");
    reveal_strlit(": Player");
    reveal_strlit(": Wall      ");
    reveal_strlit(": Wall");
    reveal_strlit(": Wall\r");
    reveal_strlit(": Wall\r\n");
    assert(": Player    "@.subrange(0, ": Player"@.len() as int) =~= ": Player"@);
    assert(": Cube\r\n"@.subrange(0, ": Cube"@.len() as int) =~= ": Cube"@);
    assert(": Button    "@.subrange(0, ": Button"@.len() as int) =~= ": Button"@);
    assert(": Cube on Button\r\n"@.subrange(0, ": Cube on Button"@.len() as int) =~= ": Cube on Button"@);
    assert(": Wall      "@.subrange(0, ": Wall"@.len() as int) =~= ": Wall"@);
    assert(": Finish"@.subrange(0, ": Finish"@.len() as int) =~= ": Finish"@);
    assert(": Wall\r"@.subrange(0, ": Wall"@.len() as int) =~= ": Wall"@);
    assert(": Button\r\n"@.subrange(0, ": Button"@.len() as int) =~= ": Button"@);
    assert(": Wall"@.subrange(0, ": Wall"@.len() as int) =~= ": Wall"@);
    assert(": Wall\r\n"@.subrange(0, ": Wall"@.len() as int) =~= ": Wall"@);
}

/// A painted symbol that is not empty holds its character.
pub proof fn lemma_painted_holds(c: char, code: Seq<char>, s: Seq<char>)
    requires
        painted(c, code, s),
        s.len() > 0,
    ensures
        s.contains(c),
{
    if s == set_fg(code) + seq![c] + reset_fg() || s == set_fg(code) + seq![c] + plain_sgr() {
        assert(s[set_fg(code).len() as int] == c);
    } else {
        assert(s[plain_sgr().len() as int] == c);
    }
}

/// The entries of the legend for one combination of finish, cubes and buttons.
proof fn lemma_legend_case_0(m: GameMap, p: Palette)
    requires
        m.spec_has_finish(),
        m.cubes@.len() > 0,
        m.buttons@.len() > 0,
    ensures
        occurs(help_text(m, p), p.player@ + ": Player"@),
        occurs(help_text(m, p), p.cube@ + ": Cube"@),
        occurs(help_text(m, p), p.button@ + ": Button"@),
        occurs(help_text(m, p), p.cube_on_button@ + ": Cube on Button"@),
        occurs(help_text(m, p), p.wall@ + ": Wall"@),
        occurs(help_text(m, p), p.finish_open@ + ": Finish"@),
{
    lemma_label_prefixes();
    assert(occurs(help_text(m, p), p.player@ + ": Player"@)) by {
        assert(help_text(m, p) =~= (Seq::<char>::empty()) + p.player@ + ": Player    "@ + (p.cube@ + ": Cube\r\n"@ + p.button@ + ": Button    "@ + p.cube_on_button@ + ": Cube on Button\r\n"@ + p.wall@ + ": Wall      "@ + p.finish_open@ + ": Finish"@));
        lemma_entry(Seq::<char>::empty(), p.player@, ": Player    "@, p.cube@ + ": Cube\r\n"@ + p.button@ + ": Button    "@ + p.cube_on_button@ + ": Cube on Button\r\n"@ + p.wall@ + ": Wall      "@ + p.finish_open@ + ": Finish"@, ": Player"@);
    }
    assert(occurs(help_text(m, p), p.cube@ + ": Cube"@)) by {
        assert(help_text(m, p) =~= (p.player@ + ": Player    "@) + p.cube@ + ": Cube\r\n"@ + (p.button@ + ": Button    "@ + p.cube_on_button@ + ": Cube on Button\r\n"@ + p.wall@ + ": Wall      "@ + p.finish_open@ + ": Finish"@));
        lemma_entry(p.player@ + ": Player    "@, p.cube@, ": Cube\r\n"@, p.button@ + ": Button    "@ + p.cube_on_button@ + ": Cube on Button\r\n"@ + p.wall@ + ": Wall      "@ + p.finish_open@ + ": Finish"@, ": Cube"@);
    }
    assert(occurs(help_text(m, p), p.button@ + ": Button"@)) by {
        assert(help_text(m, p) =~= (p.player@ + ": Player    "@ + p.cube@ + ": Cube\r\n"@) + p.button@ + ": Button    "@ + (p.cube_on_button@ + ": Cube on Button\r\n"@ + p.wall@ + ": Wall      "@ + p.finish_open@ + ": Finish"@));
        lemma_entry(p.player@ + ": Player    "@ + p.cube@ + ": Cube\r\n"@, p.button@, ": Button    "@, p.cube_on_button@ + ": Cube on Button\r\n"@ + p.wall@ + ": Wall      "@ + p.finish_open@ + ": Finish"@, ": Button"@);
    }
    assert(occurs(help_text(m, p), p.cube_on_button@ + ": Cube on Button"@)) by {
        assert(help_text(m, p) =~= (p.player@ + ": Player    "@ + p.cube@ + ": Cube\r\n"@ + p.button@ + ": Button    "@) + p.cube_on_button@ + ": Cube on Button\r\n"@ + (p.wall@ + ": Wall      "@ + p.finish_open@ + ": Finish"@));
        lemma_entry(p.player@ + ": Player    "@ + p.cube@ + ": Cube\r\n"@ + p.button@ + ": Button    "@, p.cube_on_button@, ": Cube on Button\r\n"@, p.wall@ + ": Wall      "@ + p.finish_open@ + ": Finish"@, ": Cube on Button"@);
    }
    assert(occurs(help_text(m, p), p.wall@ + ": Wall"@)) by {
        assert(help_text(m, p) =~= (p.player@ + ": Player    "@ + p.cube@ + ": Cube\r\n"@ + p.button@ + ": Button    "@ + p.cube_on_button@ + ": Cube on Button\r\n"@) + p.wall@ + ": Wall      "@ + (p.finish_open@ + ": Finish"@));
        lemma_entry(p.player@ + ": Player    "@ + p.cube@ + ": Cube\r\n"@ + p.button@ + ": Button    "@ + p.cube_on_button@ + ": Cube on Button\r\n"@, p.wall@, ": Wall      "@, p.finish_open@ + ": Finish"@, ": Wall"@);
    }
    assert(occurs(help_text(m, p), p.finish_open@ + ": Finish"@)) by {
        assert(help_text(m, p) =~= (p.player@ + ": Player    "@ + p.cube@ + ": Cube\r\n"@ + p.button@ + ": Button    "@ + p.cube_on_button@ + ": Cube on Button\r\n"@ + p.wall@ + ": Wall      "@) + p.finish_open@ + ": Finish"@ + (Seq::<char>::empty()));
        lemma_entry(p.player@ + ": Player    "@ + p.cube@ + ": Cube\r\n"@ + p.button@ + ": Button    "@ + p.cube_on_button@ + ": Cube on Button\r\n"@ + p.wall@ + ": Wall      "@, p.finish_open@, ": Finish"@, Seq::<char>::empty(), ": Finish"@);
    }
}

/// The entries of the legend for one combination of finish, cubes and buttons.
proof fn lemma_legend_case_1(m: GameMap, p: Palette)
    requires
        !(m.spec_has_finish()),
        m.cubes@.len() > 0,
        m.buttons@.len() > 0,
    ensures
        occurs(help_text(m, p), p.player@ + ": Player"@),
        occurs(help_text(m, p), p.cube@ + ": Cube"@),
        occurs(help_text(m, p), p.button@ + ": Button"@),
        occurs(help_text(m, p), p.cube_on_button@ + ": Cube on Button"@),
        occurs(help_text(m, p), p.wall@ + ": Wall"@),
{
    lemma_label_prefixes();
    assert(occurs(help_text(m, p), p.player@ + ": Player"@)) by {
        assert(help_text(m, p) =~= (Seq::<char>::empty()) + p.player@ + ": Player    "@ + (p.cube@ + ": Cube\r\n"@ + p.button@ + ": Button    "@ + p.cube_on_button@ + ": Cube on Button\r\n"@ + p.wall@ + ": Wall\r"@));
        lemma_entry(Seq::<char>::empty(), p.player@, ": Player    "@, p.cube@ + ": Cube\r\n"@ + p.button@ + ": Button    "@ + p.cube_on_button@ + ": Cube on Button\r\n"@ + p.wall@ + ": Wall\r"@, ": Player"@);
    }
    assert(occurs(help_text(m, p), p.cube@ + ": Cube"@)) by {
        assert(help_text(m, p) =~= (p.player@ + ": Player    "@) + p.cube@ + ": Cube\r\n"@ + (p.button@ + ": Button    "@ + p.cube_on_button@ + ": Cube on Button\r\n"@ + p.wall@ + ": Wall\r"@));
        lemma_entry(p.player@ + ": Player    "@, p.cube@, ": Cube\r\n"@, p.button@ + ": Button    "@ + p.cube_on_button@ + ": Cube on Button\r\n"@ + p.wall@ + ": Wall\r"@, ": Cube"@);
    }
    assert(occurs(help_text(m, p), p.button@ + ": Button"@)) by {
        assert(help_text(m, p) =~= (p.player@ + ": Player    "@ + p.cube@ + ": Cube\r\n"@) + p.button@ + ": Button    "@ + (p.cube_on_button@ + ": Cube on Button\r\n"@ + p.wall@ + ": Wall\r"@));
        lemma_entry(p.player@ + ": Player    "@ + p.cube@ + ": Cube\r\n"@, p.button@, ": Button    "@, p.cube_on_button@ + ": Cube on Button\r\n"@ + p.wall@ + ": Wall\r"@, ": Button"@);
    }
    assert(occurs(help_text(m, p), p.cube_on_button@ + ": Cube on Button"@)) by {
        assert(help_text(m, p) =~= (p.player@ + ": Player    "@ + p.cube@ + ": Cube\r\n"@ + p.button@ + ": Button    "@) + p.cube_on_button@ + ": Cube on Button\r\n"@ + (p.wall@ + ": Wall\r"@));
        lemma_entry(p.player@ + ": Player    "@ + p.cube@ + ": Cube\r\n"@ + p.button@ + ": Button    "@, p.cube_on_button@, ": Cube on Button\r\n"@, p.wall@ + ": Wall\r"@, ": Cube on Button"@);
    }
    assert(occurs(help_text(m, p), p.wall@ + ": Wall"@)) by {
        assert(help_text(m, p) =~= (p.player@ + ": Player    "@ + p.cube@ + ": Cube\r\n"@ + p.button@ + ": Button    "@ + p.cube_on_button@ + ": Cube on Button\r\n"@) + p.wall@ + ": Wall\r"@ + (Seq::<char>::empty()));
        lemma_entry(p.player@ + ": Player    "@ + p.cube@ + ": Cube\r\n"@ + p.button@ + ": Button    "@ + p.cube_on_button@ + ": Cube on Button\r\n"@, p.wall@, ": Wall\r"@, Seq::<char>::empty(), ": Wall"@);
    }
}

/// The entries of the legend for one combination of finish, cubes and buttons.
proof fn lemma_legend_case_2(m: GameMap, p: Palette)
    requires
        m.spec_has_finish(),
        !(m.cubes@.len() > 0),
        m.buttons@.len() > 0,
    ensures
        occurs(help_text(m, p), p.player@ + ": Player"@),
        occurs(help_text(m, p), p.button@ + ": Button"@),
        occurs(help_text(m, p), p.wall@ + ": Wall"@),
        occurs(help_text(m, p), p.finish_open@ + ": Finish"@),
{
    lemma_label_prefixes();
    assert(occurs(help_text(m, p), p.player@ + ": Player"@)) by {
        assert(help_text(m, p) =~= (Seq::<char>::empty()) + p.player@ + ": Player    "@ + (p.button@ + ": Button\r\n"@ + p.wall@ + ": Wall      "@ + p.finish_open@ + ": Finish"@));
        lemma_entry(Seq::<char>::empty(), p.player@, ": Player    "@, p.button@ + ": Button\r\n"@ + p.wall@ + ": Wall      "@ + p.finish_open@ + ": Finish"@, ": Player"@);
    }
    assert(occurs(help_text(m, p), p.button@ + ": Button"@)) by {
        assert(help_text(m, p) =~= (p.player@ + ": Player    "@) + p.button@ + ": Button\r\n"@ + (p.wall@ + ": Wall      "@ + p.finish_open@ + ": Finish"@));
        lemma_entry(p.player@ + ": Player    "@, p.button@, ": Button\r\n"@, p.wall@ + ": Wall      "@ + p.finish_open@ + ": Finish"@, ": Button"@);
    }
    assert(occurs(help_text(m, p), p.wall@ + ": Wall"@)) by {
        assert(help_text(m, p) =~= (p.player@ + ": Player    "@ + p.button@ + ": Button\r\n"@) + p.wall@ + ": Wall      "@ + (p.finish_open@ + ": Finish"@));
        lemma_entry(p.player@ + ": Player    "@ + p.button@ + ": Button\r\n"@, p.wall@, ": Wall      "@, p.finish_open@ + ": Finish"@, ": Wall"@);
    }
    assert(occurs(help_text(m, p), p.finish_open@ + ": Finish"@)) by {
        assert(help_text(m, p) =~= (p.player@ + ": Player    "@ + p.button@ + ": Button\r\n"@ + p.wall@ + ": Wall      "@) + p.finish_open@ + ": Finish"@ + (Seq::<char>::empty()));
        lemma_entry(p.player@ + ": Player    "@ + p.button@ + ": Button\r\n"@ + p.wall@ + ": Wall      "@, p.finish_open@, ": Finish"@, Seq::<char>::empty(), ": Finish"@);
    }
}

/// The entries of the legend for one combination of finish, cubes and buttons.
proof fn lemma_legend_case_3(m: GameMap, p: Palette)
    requires
        m.spec_has_finish(),
        m.cubes@.len() > 0,
        !(m.buttons@.len() > 0),
    ensures
        occurs(help_text(m, p), p.player@ + ": Player"@),
        occurs(help_text(m, p), p.cube@ + ": Cube"@),
        occurs(help_text(m, p), p.wall@ + ": Wall"@),
        occurs(help_text(m, p), p.finish_open@ + ": Finish"@),
{
    lemma_label_prefixes();
    assert(occurs(help_text(m, p), p.player@ + ": Player"@)) by {
        assert(help_text(m, p) =~= (Seq::<char>::empty()) + p.player@ + ": Player    "@ + (p.cube@ + ": Cube\r\n"@ + p.wall@ + ": Wall      "@ + p.finish_open@ + ": Finish"@));
        lemma_entry(Seq::<char>::empty(), p.player@, ": Player    "@, p.cube@ + ": Cube\r\n"@ + p.wall@ + ": Wall      "@ + p.finish_open@ + ": Finish"@, ": Player"@);
    }
    assert(occurs(help_text(m, p), p.cube@ + ": Cube"@)) by {
        assert(help_text(m, p) =~= (p.player@ + ": Player    "@) + p.cube@ + ": Cube\r\n"@ + (p.wall@ + ": Wall      "@ + p.finish_open@ + ": Finish"@));
        lemma_entry(p.player@ + ": Player    "@, p.cube@, ": Cube\r\n"@, p.wall@ + ": Wall      "@ + p.finish_open@ + ": Finish"@, ": Cube"@);
    }
    assert(occurs(help_text(m, p), p.wall@ + ": Wall"@)) by {
        assert(help_text(m, p) =~= (p.player@ + ": Player    "@ + p.cube@ + ": Cube\r\n"@) + p.wall@ + ": Wall      "@ + (p.finish_open@ + ": Finish"@));
        lemma_entry(p.player@ + ": Player    "@ + p.cube@ + ": Cube\r\n"@, p.wall@, ": Wall      "@, p.finish_open@ + ": Finish"@, ": Wall"@);
    }
    assert(occurs(help_text(m, p), p.finish_open@ + ": Finish"@)) by {
        assert(help_text(m, p) =~= (p.player@ + ": Player    "@ + p.cube@ + ": Cube\r\n"@ + p.wall@ + ": Wall      "@) + p.finish_open@ + ": Finish"@ + (Seq::<char>::empty()));
        lemma_entry(p.player@ + ": Player    "@ + p.cube@ + ": Cube\r\n"@ + p.wall@ + ": Wall      "@, p.finish_open@, ": Finish"@, Seq::<char>::empty(), ": Finish"@);
    }
}

/// The entries of the legend for one combination of finish, cubes and buttons.
proof fn lemma_legend_case_4(m: GameMap, p: Palette)
    requires
        !(m.spec_has_finish()),
        !(m.cubes@.len() > 0),
        m.buttons@.len() > 0,
    ensures
        occurs(help_text(m, p), p.player@ + ": Player"@),
        occurs(help_text(m, p), p.button@ + ": Button"@),
        occurs(help_text(m, p), p.wall@ + ": Wall"@),
{
    lemma_label_prefixes();
    assert(occurs(help_text(m, p), p.player@ + ": Player"@)) by {
        assert(help_text(m, p) =~= (Seq::<char>::empty()) + p.player@ + ": Player    "@ + (p.button@ + ": Button\r\n"@ + p.wall@ + ": Wall"@));
        lemma_entry(Seq::<char>::empty(), p.player@, ": Player    "@, p.button@ + ": Button\r\n"@ + p.wall@ + ": Wall"@, ": Player"@);
    }
    assert(occurs(help_text(m, p), p.button@ + ": Button"@)) by {
        assert(help_text(m, p) =~= (p.player@ + ": Player    "@) + p.button@ + ": Button\r\n"@ + (p.wall@ + ": Wall"@));
        lemma_entry(p.player@ + ": Player    "@, p.button@, ": Button\r\n"@, p.wall@ + ": Wall"@, ": Button"@);
    }
    assert(occurs(help_text(m, p), p.wall@ + ": Wall"@)) by {
        assert(help_text(m, p) =~= (p.player@ + ": Player    "@ + p.button@ + ": Button\r\n"@) + p.wall@ + ": Wall"@ + (Seq::<char>::empty()));
        lemma_entry(p.player@ + ": Player    "@ + p.button@ + ": Button\r\n"@, p.wall@, ": Wall"@, Seq::<char>::empty(), ": Wall"@);
    }
}

/// The entries of the legend for one combination of finish, cubes and buttons.
proof fn lemma_legend_case_5(m: GameMap, p: Palette)
    requires
        !(m.spec_has_finish()),
        m.cubes@.len() > 0,
        !(m.buttons@.len() > 0),
    ensures
        occurs(help_text(m, p), p.player@ + ": Player"@),
        occurs(help_text(m, p), p.cube@ + ": Cube"@),
        occurs(help_text(m, p), p.wall@ + ": Wall"@),
{
    lemma_label_prefixes();
    assert(occurs(help_text(m, p), p.player@ + ": Player"@)) by {
        assert(help_text(m, p) =~= (Seq::<char>::empty()) + p.player@ + ": Player    "@ + (p.cube@ + ": Cube\r\n"@ + p.wall@ + ": Wall"@));
        lemma_entry(Seq::<char>::empty(), p.player@, ": Player    "@, p.cube@ + ": Cube\r\n"@ + p.wall@ + ": Wall"@, ": Player"@);
    }
    assert(occurs(help_text(m, p), p.cube@ + ": Cube"@)) by {
        assert(help_text(m, p) =~= (p.player@ + ": Player    "@) + p.cube@ + ": Cube\r\n"@ + (p.wall@ + ": Wall"@));
        lemma_entry(p.player@ + ": Player    "@, p.cube@, ": Cube\r\n"@, p.wall@ + ": Wall"@, ": Cube"@);
    }
    assert(occurs(help_text(m, p), p.wall@ + ": Wall"@)) by {
        assert(help_text(m, p) =~= (p.player@ + ": Player    "@ + p.cube@ + ": Cube\r\n"@) + p.wall@ + ": Wall"@ + (Seq::<char>::empty()));
        lemma_entry(p.player@ + ": Player    "@ + p.cube@ + ": Cube\r\n"@, p.wall@, ": Wall"@, Seq::<char>::empty(), ": Wall"@);
    }
}

/// The entries of the legend for one combination of finish, cubes and buttons.
proof fn lemma_legend_case_6(m: GameMap, p: Palette)
    requires
        m.spec_has_finish(),
        !(m.cubes@.len() > 0),
        !(m.buttons@.len() > 0),
    ensures
        occurs(help_text(m, p), p.player@ + ": Player"@),
        occurs(help_text(m, p), p.wall@ + ": Wall"@),
        occurs(help_text(m, p), p.finish_open@ + ": Finish"@),
{
    lemma_label_prefixes();
    assert(occurs(help_text(m, p), p.player@ + ": Player"@)) by {
        assert(help_text(m, p) =~= (Seq::<char>::empty()) + p.player@ + ": Player    "@ + (p.wall@ + ": Wall\r\n"@ + p.finish_open@ + ": Finish"@));
        lemma_entry(Seq::<char>::empty(), p.player@, ": Player    "@, p.wall@ + ": Wall\r\n"@ + p.finish_open@ + ": Finish"@, ": Player"@);
    }
    assert(occurs(help_text(m, p), p.wall@ + ": Wall"@)) by {
        assert(help_text(m, p) =~= (p.player@ + ": Player    "@) + p.wall@ + ": Wall\r\n"@ + (p.finish_open@ + ": Finish"@));
        lemma_entry(p.player@ + ": Player    "@, p.wall@, ": Wall\r\n"@, p.finish_open@ + ": Finish"@, ": Wall"@);
    }
    assert(occurs(help_text(m, p), p.finish_open@ + ": Finish"@)) by {
        assert(help_text(m, p) =~= (p.player@ + ": Player    "@ + p.wall@ + ": Wall\r\n"@) + p.finish_open@ + ": Finish"@ + (Seq::<char>::empty()));
        lemma_entry(p.player@ + ": Player    "@ + p.wall@ + ": Wall\r\n"@, p.finish_open@, ": Finish"@, Seq::<char>::empty(), ": Finish"@);
    }
}

/// The entries of the legend for one combination of finish, cubes and buttons.
proof fn lemma_legend_case_7(m: GameMap, p: Palette)
    requires
        !(m.spec_has_finish()),
        !(m.cubes@.len() > 0),
        !(m.buttons@.len() > 0),
    ensures
        occurs(help_text(m, p), p.player@ + ": Player"@),
        occurs(help_text(m, p), p.wall@ + ": Wall"@),
{
    lemma_label_prefixes();
    assert(occurs(help_text(m, p), p.player@ + ": Player"@)) by {
        assert(help_text(m, p) =~= (Seq::<char>::empty()) + p.player@ + ": Player    "@ + (p.wall@ + ": Wall\r"@));
        lemma_entry(Seq::<char>::empty(), p.player@, ": Player    "@, p.wall@ + ": Wall\r"@, ": Player"@);
    }
    assert(occurs(help_text(m, p), p.wall@ + ": Wall"@)) by {
        assert(help_text(m, p) =~= (p.player@ + ": Player    "@) + p.wall@ + ": Wall\r"@ + (Seq::<char>::empty()));
        lemma_entry(p.player@ + ": Player    "@, p.wall@, ": Wall\r"@, Seq::<char>::empty(), ": Wall"@);
    }
}

/// In colour, the legend shows each entry's symbol right before its name:
/// 'K' before ": Player" and '#' before ": Wall" always, 'o' before ": Cube"
/// when the level has cubes, 'x' before ": Button" when it has buttons, 'O'
/// before ": Cube on Button" when it has both, and 'F' before ": Finish" when
/// it has a finish.
pub proof fn lemma_legend_shows_symbols(m: GameMap, p: Palette)
    requires
        p.is_colored(),
    ensures
        p.player@.contains('K'),
        p.cube@.contains('o'),
        p.button@.contains('x'),
        p.cube_on_button@.contains('O'),
        p.wall@.contains('#'),
        p.finish_open@.contains('F'),
        occurs(help_text(m, p), p.player@ + ": Player"@),
        occurs(help_text(m, p), p.wall@ + ": Wall"@),
        m.cubes@.len() > 0 ==> occurs(help_text(m, p), p.cube@ + ": Cube"@),
        m.buttons@.len() > 0 ==> occurs(help_text(m, p), p.button@ + ": Button"@),
        m.cubes@.len() > 0 && m.buttons@.len() > 0 ==> occurs(
            help_text(m, p),
            p.cube_on_button@ + ": Cube on Button"@,
        ),
        (m.finish.x != 0 && m.finish.y != 0) ==> occurs(help_text(m, p), p.finish_open@ + ": Finish"@),
{
    lemma_painted_holds('K', yellow_code(), p.player@);
    lemma_painted_holds('o', blue_code(), p.cube@);
    lemma_painted_holds('x', red_code(), p.button@);
    lemma_painted_holds('O', green_code(), p.cube_on_button@);
    lemma_painted_holds('#', grey_code(), p.wall@);
    lemma_painted_holds('F', blue_code(), p.finish_open@);
    lemma_label_prefixes();
    if m.spec_has_finish() && m.cubes@.len() > 0 && m.buttons@.len() > 0 {
        lemma_legend_case_0(m, p);
    }
    if !(m.spec_has_finish()) && m.cubes@.len() > 0 && m.buttons@.len() > 0 {
        lemma_legend_case_1(m, p);
    }
    if m.spec_has_finish() && !(m.cubes@.len() > 0) && m.buttons@.len() > 0 {
        lemma_legend_case_2(m, p);
    }
    if m.spec_has_finish() && m.cubes@.len() > 0 && !(m.buttons@.len() > 0) {
        lemma_legend_case_3(m, p);
    }
    if !(m.spec_has_finish()) && !(m.cubes@.len() > 0) && m.buttons@.len() > 0 {
        lemma_legend_case_4(m, p);
    }
    if !(m.spec_has_finish()) && m.cubes@.len() > 0 && !(m.buttons@.len() > 0) {
        lemma_legend_case_5(m, p);
    }
    if m.spec_has_finish() && !(m.cubes@.len() > 0) && !(m.buttons@.len() > 0) {
        lemma_legend_case_6(m, p);
    }
    if !(m.spec_has_finish()) && !(m.cubes@.len() > 0) && !(m.buttons@.len() > 0) {
        lemma_legend_case_7(m, p);
    }
}

/// A cube stands on `(x, y)`.
pub open spec fn cube_here(m: GameMap, x: int, y: int) -> bool {
    exists|i: int| 0 <= i < m.cubes@.len() && #[trigger] m.cubes@[i].x == x && m.cubes@[i].y == y
}

/// A button lies on `(x, y)`.
pub open spec fn button_here(m: GameMap, x: int, y: int) -> bool {
    exists|i: int|
        0 <= i < m.buttons@.len() && #[trigger] m.buttons@[i].x == x && m.buttons@[i].y == y
}

/// A wall stands on `(x, y)`.
pub open spec fn wall_here(m: GameMap, x: int, y: int) -> bool {
    exists|i: int| 0 <= i < m.walls@.len() && #[trigger] m.walls@[i].x == x && m.walls@[i].y == y
}

/// In colour, each cell is drawn with the symbol of what it holds: 'K' for the
/// player, 'O' for a cube on a button, 'o' for a cube, 'x' for a button, 'F'
/// for the finish (a finish off the first row and column), '#' for a wall, in
/// that order of precedence, and a space for an empty cell.
pub proof fn lemma_cell_shows_symbol(m: GameMap, p: Palette, x: int, y: int)
    requires
        p.is_colored(),
    ensures
        ({
            let t = cell_text(m, p, x, y);
            let player = m.player.x == x && m.player.y == y;
            let finish = m.finish.x == x && m.finish.y == y && x != 0 && y != 0;
            &&& player ==> t.contains('K')
            &&& !player && cube_here(m, x, y) && button_here(m, x, y) ==> t.contains('O')
            &&& !player && cube_here(m, x, y) && !button_here(m, x, y) ==> t.contains('o')
            &&& !player && !cube_here(m, x, y) && button_here(m, x, y) ==> t.contains('x')
            &&& !player && !cube_here(m, x, y) && !button_here(m, x, y) && finish ==> t.contains(
                'F',
            )
            &&& !player && !cube_here(m, x, y) && !button_here(m, x, y) && !finish && wall_here(
                m,
                x,
                y,
            ) ==> t.contains('#')
            &&& !player && !cube_here(m, x, y) && !button_here(m, x, y) && !finish && !wall_here(
                m,
                x,
                y,
            ) ==> t == seq![' ']
        }),
{
    lemma_painted_holds('K', green_code(), p.player_on_finish@);
    lemma_painted_holds('K', yellow_code(), p.player@);
    lemma_painted_holds('O', green_code(), p.cube_on_button@);
    lemma_painted_holds('o', blue_code(), p.cube@);
    lemma_painted_holds('x', red_code(), p.button@);
    lemma_painted_holds('F', blue_code(), p.finish_open@);
    lemma_painted_holds('F', red_code(), p.finish_closed@);
    lemma_painted_holds('#', grey_code(), p.wall@);
    if cube_here(m, x, y) {
        let i = choose|i: int|
            0 <= i < m.cubes@.len() && #[trigger] m.cubes@[i].x == x && m.cubes@[i].y == y;
        assert(cube_on(m.cubes@, i, x, y));
    }
    if some_cube_on(m.cubes@, x, y) {
        let i = choose|i: int| 0 <= i < m.cubes@.len() && #[trigger] cube_on(m.cubes@, i, x, y);
        assert(m.cubes@[i].x == x && m.cubes@[i].y == y);
    }
    if button_here(m, x, y) {
        let i = choose|i: int|
            0 <= i < m.buttons@.len() && #[trigger] m.buttons@[i].x == x && m.buttons@[i].y == y;
        assert(button_at(m, x, y));
    }
    if wall_here(m, x, y) {
        let i = choose|i: int|
            0 <= i < m.walls@.len() && #[trigger] m.walls@[i].x == x && m.walls@[i].y == y;
        assert(m.wall_at(x, y));
    }
}

/// The first `w` cells of row `y` each show in the row's text.
proof fn lemma_row_holds_cell(m: GameMap, p: Palette, y: int, w: int, x: int)
    requires
        0 <= x < w,
    ensures
        occurs(row_text(m, p, y, w), cell_text(m, p, x, y)),
    decreases w,
{
    let r = row_text(m, p, y, w);
    let prev = row_text(m, p, y, w - 1);
    if x == w - 1 {
        let i = prev.len() as int;
        assert(r.subrange(i, i + cell_text(m, p, x, y).len()) =~= cell_text(m, p, x, y));
    } else {
        lemma_row_holds_cell(m, p, y, w - 1, x);
        let c = cell_text(m, p, x, y);
        let i = choose|i: int| 0 <= i && i + c.len() <= prev.len() && #[trigger] prev.subrange(i, i + c.len()) == c;
        assert(r.subrange(i, i + c.len()) =~= prev.subrange(i, i + c.len()));
    }
}

/// Every cell of the first `h` rows shows in the board's text.
proof fn lemma_board_holds_cell(m: GameMap, p: Palette, h: int, x: int, y: int)
    requires
        0 <= x < m.width,
        0 <= y < h,
    ensures
        occurs(board_text(m, p, h), cell_text(m, p, x, y)),
    decreases h,
{
    let t = board_text(m, p, h);
    let prev = board_text(m, p, h - 1);
    let c = cell_text(m, p, x, y);
    if y == h - 1 {
        lemma_row_holds_cell(m, p, y, m.width as int, x);
        let row = row_text(m, p, y, m.width as int);
        let i = choose|i: int| 0 <= i && i + c.len() <= row.len() && #[trigger] row.subrange(i, i + c.len()) == c;
        let j = prev.len() + i;
        assert(t.subrange(j, j + c.len()) =~= row.subrange(i, i + c.len()));
    } else {
        lemma_board_holds_cell(m, p, h - 1, x, y);
        let i = choose|i: int| 0 <= i && i + c.len() <= prev.len() && #[trigger] prev.subrange(i, i + c.len()) == c;
        assert(t.subrange(i, i + c.len()) =~= prev.subrange(i, i + c.len()));
    }
}

/// The drawn board holds the text of every one of its cells, each as a
/// stretch of consecutive characters.
pub proof fn lemma_board_shows_every_cell(m: GameMap, p: Palette, x: int, y: int)
    requires
        0 <= x < m.width,
        0 <= y < m.height,
    ensures
        occurs(board_text(m, p, m.height as int), cell_text(m, p, x, y)),
{
    lemma_board_holds_cell(m, p, m.height as int, x, y);
}

} // verus!
