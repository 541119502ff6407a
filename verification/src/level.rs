use vstd::prelude::*;
use crate::game::{Button, Cube, Finish, GameMap, Player, Wall, cube_cells};
use crate::text::{
    is_blank, line_ranges, lines_of, pieces, range_is_blank, split_on, split_ranges,
};

verus! {

/// The kinds of object that a level file marks on its tiles.
pub enum Mark {
    Wall,
    Cube,
    Button,
    Player,
    Finish,
}

/// Tile `c` places an object of kind `m`: '#' a wall, '$' a cube, '.' a
/// button, '@' the player, '€' the finish; '*' is a cube on a button and '+'
/// the player on a button.
pub open spec fn marks(m: Mark, c: char) -> bool {
    match m {
        Mark::Wall => c == '#',
        Mark::Cube => c == '$' || c == '*',
        Mark::Button => c == '.' || c == '*' || c == '+',
        Mark::Player => c == '@' || c == '+',
        Mark::Finish => c == '€',
    }
}

/// The cells of row `y` whose tiles place an object of kind `m`, left to right.
pub open spec fn row_cells(row: Seq<char>, y: int, m: Mark) -> Seq<(i32, i32)>
    decreases row.len(),
{
    if row.len() == 0 {
        Seq::empty()
    } else {
        let r = row_cells(row.drop_last(), y, m);
        if marks(m, row.last()) {
            r.push(((row.len() - 1) as i32, y as i32))
        } else {
            r
        }
    }
}

/// The cells of `grid` whose tiles place an object of kind `m`, row by row.
pub open spec fn grid_cells(grid: Seq<Seq<char>>, m: Mark) -> Seq<(i32, i32)>
    decreases grid.len(),
{
    if grid.len() == 0 {
        Seq::empty()
    } else {
        grid_cells(grid.drop_last(), m) + row_cells(grid.last(), grid.len() - 1, m)
    }
}

/// The last of `cells`, or `(0, 0)` when there is none.
pub open spec fn last_or_origin(cells: Seq<(i32, i32)>) -> (i32, i32) {
    if cells.len() == 0 {
        (0, 0)
    } else {
        cells.last()
    }
}

/// The length of the longest row of `grid`; 0 when it has none.
pub open spec fn max_width(grid: Seq<Seq<char>>) -> nat
    decreases grid.len(),
{
    if grid.len() == 0 {
        0
    } else {
        let w = max_width(grid.drop_last());
        if grid.last().len() > w {
            grid.last().len()
        } else {
            w
        }
    }
}

/// The header line names the level: it holds a character that is neither '#'
/// nor white space (the pattern `[^#\s]+` matches somewhere in it).
pub open spec fn names_level(header: Seq<char>) -> bool {
    exists|i: int|
        0 <= i < header.len() && #[trigger] header[i] != '#' && !crate::text::is_space(header[i])
}

/// The rows of a level: the header is a row of its own unless it names the level.
pub open spec fn level_grid(header: Seq<char>, lines: Seq<Seq<char>>) -> Seq<Seq<char>> {
    if names_level(header) {
        lines
    } else {
        seq![header] + lines
    }
}

/// The name of a level: its trimmed header, or nothing.
pub open spec fn level_name(header: Seq<char>) -> Seq<char> {
    if names_level(header) {
        crate::text::trim(header)
    } else {
        Seq::empty()
    }
}

/// The positions of `walls`, in order.
pub open spec fn wall_cells(walls: Seq<Wall>) -> Seq<(i32, i32)> {
    Seq::new(walls.len(), |i: int| (walls[i].x, walls[i].y))
}

/// The positions of `buttons`, in order.
pub open spec fn button_cells(buttons: Seq<Button>) -> Seq<(i32, i32)> {
    Seq::new(buttons.len(), |i: int| (buttons[i].x, buttons[i].y))
}

/// The character rows held by `rows`.
pub open spec fn rows_view(rows: Seq<Vec<char>>) -> Seq<Seq<char>> {
    Seq::new(rows.len(), |i: int| rows[i]@)
}

/// The rows fit the coordinates of a map: fewer rows, and fewer characters in
/// each row, than `i32::MAX`.
pub open spec fn grid_fits(grid: Seq<Seq<char>>) -> bool {
    &&& grid.len() < i32::MAX
    &&& forall|y: int| 0 <= y < grid.len() ==> (#[trigger] grid[y]).len() < i32::MAX
}

/// `m` is the map that `grid` describes, under the name `name`, before any move.
pub open spec fn built_from(m: GameMap, name: Seq<char>, grid: Seq<Seq<char>>) -> bool {
    &&& m.name@ == name
    &&& m.height == grid.len()
    &&& m.width == max_width(grid)
    &&& (m.player.x, m.player.y) == last_or_origin(grid_cells(grid, Mark::Player))
    &&& m.player.location_history@.len() == 0
    &&& cube_cells(m.cubes@) == grid_cells(grid, Mark::Cube)
    &&& forall|i: int|
        0 <= i < m.cubes@.len() ==> (#[trigger] m.cubes@[i]).location_history@.len() == 0
    &&& button_cells(m.buttons@) == grid_cells(grid, Mark::Button)
    &&& (m.finish.x, m.finish.y) == last_or_origin(grid_cells(grid, Mark::Finish))
    &&& wall_cells(m.walls@) == grid_cells(grid, Mark::Wall)
}

/// The rows that `header` and `lines` make up place the player somewhere.
pub open spec fn places_player(header: Seq<char>, lines: Seq<Seq<char>>) -> bool {
    grid_cells(level_grid(header, lines), Mark::Player).len() > 0
}

/// `m` is the level that `header` and the map `lines` describe.
pub open spec fn parsed_from(m: GameMap, header: Seq<char>, lines: Seq<Seq<char>>) -> bool {
    built_from(m, level_name(header), level_grid(header, lines))
}

/// The cells of kind `m` in the rows before `y`, then in row `y` before column `x`.
pub open spec fn cells_before(grid: Seq<Seq<char>>, y: int, x: int, m: Mark) -> Seq<(i32, i32)> {
    grid_cells(grid.take(y), m) + row_cells(grid[y].take(x), y, m)
}

/// Going one column further adds the current cell when its tile has kind `m`.
proof fn lemma_cells_step(grid: Seq<Seq<char>>, y: int, x: int, m: Mark)
    requires
        0 <= y < grid.len(),
        0 <= x < grid[y].len(),
    ensures
        cells_before(grid, y, x + 1, m) == if marks(m, grid[y][x]) {
            cells_before(grid, y, x, m).push((x as i32, y as i32))
        } else {
            cells_before(grid, y, x, m)
        },
{
    let r = grid[y].take(x + 1);
    assert(r.drop_last() =~= grid[y].take(x));
    assert(r.last() == grid[y][x]);
    if marks(m, grid[y][x]) {
        assert(cells_before(grid, y, x + 1, m) =~= cells_before(grid, y, x, m).push(
            (x as i32, y as i32),
        ));
    }
}

/// Finishing row `y` is the same as starting row `y + 1`.
proof fn lemma_cells_row(grid: Seq<Seq<char>>, y: int, m: Mark)
    requires
        0 <= y < grid.len(),
    ensures
        grid_cells(grid.take(y + 1), m) == cells_before(grid, y, grid[y].len() as int, m),
{
    let g = grid.take(y + 1);
    assert(g.drop_last() =~= grid.take(y));
    assert(grid[y].take(grid[y].len() as int) =~= grid[y]);
}

/// The map that `grid` describes, named `name`.
#[verifier::loop_isolation(false)]
pub fn build_map(name: String, grid: &Vec<Vec<char>>) -> (m: GameMap)
    requires
        grid_fits(rows_view(grid@)),
    ensures
        built_from(m, name@, rows_view(grid@)),
        m.wf(),
        grid_cells(rows_view(grid@), Mark::Player).len() > 0 ==> m.sound(),
{
    let ghost g = rows_view(grid@);
    let mut width: usize = 0;
    let mut k: usize = 0;
    while k < grid.len()
        invariant
            k <= grid@.len() == g.len(),
            width == max_width(g.take(k as int)),
            width < i32::MAX,
        decreases grid@.len() - k,
    {
        assert(g.take(k + 1).drop_last() =~= g.take(k as int));
        assert(g[k as int] == grid@[k as int]@);
        if grid[k].len() > width {
            width = grid[k].len();
        }
        k = k + 1;
    }
    assert(g.take(g.len() as int) =~= g);
    let mut player = Player { x: 0, y: 0, location_history: Vec::new() };
    let mut finish = Finish { x: 0, y: 0 };
    let mut cubes: Vec<Cube> = Vec::new();
    let mut buttons: Vec<Button> = Vec::new();
    let mut walls: Vec<Wall> = Vec::new();
    let mut y: usize = 0;
    assert(grid_cells(g.take(0), Mark::Wall) =~= Seq::<(i32, i32)>::empty());
    while y < grid.len()
        invariant
            y <= grid@.len() == g.len(),
            grid_fits(g),
            player.location_history@.len() == 0,
            (player.x, player.y) == last_or_origin(grid_cells(g.take(y as int), Mark::Player)),
            (finish.x, finish.y) == last_or_origin(grid_cells(g.take(y as int), Mark::Finish)),
            cube_cells(cubes@) == grid_cells(g.take(y as int), Mark::Cube),
            forall|i: int|
                0 <= i < cubes@.len() ==> (#[trigger] cubes@[i]).location_history@.len() == 0,
            button_cells(buttons@) == grid_cells(g.take(y as int), Mark::Button),
            wall_cells(walls@) == grid_cells(g.take(y as int), Mark::Wall),
            forall|i: int|
                0 <= i < grid_cells(g.take(y as int), Mark::Player).len() ==> crate::game::coord_ok(
                    (#[trigger] grid_cells(g.take(y as int), Mark::Player)[i]).0 as int,
                    grid_cells(g.take(y as int), Mark::Player)[i].1 as int,
                ),
            forall|i: int|
                0 <= i < cubes@.len() ==> crate::game::coord_ok(
                    (#[trigger] cubes@[i]).x as int,
                    cubes@[i].y as int,
                ),
        decreases grid@.len() - y,
    {
        let row = &grid[y];
        assert(g[y as int] == row@);
        let mut x: usize = 0;
        proof {
            assert(row@.take(0) =~= Seq::<char>::empty());
            assert(cells_before(g, y as int, 0, Mark::Wall) =~= grid_cells(g.take(y as int), Mark::Wall));
            assert(cells_before(g, y as int, 0, Mark::Cube) =~= grid_cells(g.take(y as int), Mark::Cube));
            assert(cells_before(g, y as int, 0, Mark::Button) =~= grid_cells(g.take(y as int), Mark::Button));
            assert(cells_before(g, y as int, 0, Mark::Player) =~= grid_cells(g.take(y as int), Mark::Player));
            assert(cells_before(g, y as int, 0, Mark::Finish) =~= grid_cells(g.take(y as int), Mark::Finish));
        }
        while x < row.len()
            invariant
                x <= row@.len(),
                row@ == g[y as int],
                y < g.len(),
                grid_fits(g),
                player.location_history@.len() == 0,
                (player.x, player.y) == last_or_origin(cells_before(g, y as int, x as int, Mark::Player)),
                (finish.x, finish.y) == last_or_origin(cells_before(g, y as int, x as int, Mark::Finish)),
                cube_cells(cubes@) == cells_before(g, y as int, x as int, Mark::Cube),
                forall|i: int|
                    0 <= i < cubes@.len() ==> (#[trigger] cubes@[i]).location_history@.len() == 0,
                button_cells(buttons@) == cells_before(g, y as int, x as int, Mark::Button),
                wall_cells(walls@) == cells_before(g, y as int, x as int, Mark::Wall),
                forall|i: int|
                    0 <= i < cells_before(g, y as int, x as int, Mark::Player).len() ==> crate::game::coord_ok(
                        (#[trigger] cells_before(g, y as int, x as int, Mark::Player)[i]).0 as int,
                        cells_before(g, y as int, x as int, Mark::Player)[i].1 as int,
                    ),
                forall|i: int|
                    0 <= i < cubes@.len() ==> crate::game::coord_ok(
                        (#[trigger] cubes@[i]).x as int,
                        cubes@[i].y as int,
                    ),
            decreases row@.len() - x,
        {
            let tile = row[x];
            let cx = x as i32;
            let cy = y as i32;
            proof {
                lemma_cells_step(g, y as int, x as int, Mark::Wall);
                lemma_cells_step(g, y as int, x as int, Mark::Cube);
                lemma_cells_step(g, y as int, x as int, Mark::Button);
                lemma_cells_step(g, y as int, x as int, Mark::Player);
                lemma_cells_step(g, y as int, x as int, Mark::Finish);
            }
            let ghost cubes_before = cubes@;
            let ghost buttons_before = buttons@;
            let ghost walls_before = walls@;
            if tile == '#' {
                walls.push(Wall { x: cx, y: cy });
            } else if tile == '@' {
                player.x = cx;
                player.y = cy;
            } else if tile == '$' {
                cubes.push(Cube { x: cx, y: cy, location_history: Vec::new() });
            } else if tile == '.' {
                buttons.push(Button { x: cx, y: cy });
            } else if tile == '€' {
                finish.x = cx;
                finish.y = cy;
            } else if tile == '*' {
                cubes.push(Cube { x: cx, y: cy, location_history: Vec::new() });
                buttons.push(Button { x: cx, y: cy });
            } else if tile == '+' {
                player.x = cx;
                player.y = cy;
                buttons.push(Button { x: cx, y: cy });
            }
            proof {
                if marks(Mark::Wall, tile) {
                    assert(wall_cells(walls@) =~= wall_cells(walls_before).push((cx, cy)));
                } else {
                    assert(wall_cells(walls@) =~= wall_cells(walls_before));
                }
                if marks(Mark::Cube, tile) {
                    assert(cube_cells(cubes@) =~= cube_cells(cubes_before).push((cx, cy)));
                } else {
                    assert(cube_cells(cubes@) =~= cube_cells(cubes_before));
                }
                if marks(Mark::Button, tile) {
                    assert(button_cells(buttons@) =~= button_cells(buttons_before).push((cx, cy)));
                } else {
                    assert(button_cells(buttons@) =~= button_cells(buttons_before));
                }
            }
            x = x + 1;
        }
        proof {
            assert(row@.len() == g[y as int].len());
            lemma_cells_row(g, y as int, Mark::Wall);
            lemma_cells_row(g, y as int, Mark::Cube);
            lemma_cells_row(g, y as int, Mark::Button);
            lemma_cells_row(g, y as int, Mark::Player);
            lemma_cells_row(g, y as int, Mark::Finish);
        }
        y = y + 1;
    }
    assert(g.take(g.len() as int) =~= g);
    let m = GameMap {
        name,
        width: width as i32,
        height: grid.len() as i32,
        player,
        cubes,
        buttons,
        finish,
        walls,
    };
    proof {
        let pc = grid_cells(g, Mark::Player);
        if pc.len() > 0 {
            assert(crate::game::coord_ok(pc[pc.len() - 1].0 as int, pc[pc.len() - 1].1 as int));
        }
        assert forall|i: int| 0 <= i < m.cubes@.len() implies m.cube_fits(#[trigger] m.cubes@[i]) by {
            assert(crate::game::coord_ok(m.cubes@[i].x as int, m.cubes@[i].y as int));
        }
        if pc.len() > 0 {
            lemma_built_map_sound(m, name@, g);
        }
    }
    m
}

/// Asks the `regex` crate whether the pattern `[^#\s]+` matches somewhere in
/// `header` (`Regex::new` on that pattern, then `Regex::is_match`). The
/// contract states what the crate documents for that pattern: `\s` is the
/// Unicode `White_Space` class, so a match exists exactly when `header` holds a
/// character that is neither '#' nor white space.
#[verifier::external_body]
fn header_names_level(header: &str) -> (r: bool)
    ensures
        r == names_level(header@),
{
    regex::Regex::new(r"[^#\s]+").unwrap().is_match(header)
}

/// The level that `header` and the map rows `rows` describe: the header names
/// the level when it holds a character other than '#' and white space, and is
/// otherwise the first row of the map.
pub fn parse_rows(header: &str, rows: Vec<Vec<char>>) -> (m: GameMap)
    requires
        grid_fits(level_grid(header@, rows_view(rows@))),
    ensures
        parsed_from(m, header@, rows_view(rows@)),
        m.wf(),
        places_player(header@, rows_view(rows@)) ==> m.sound(),
{
    if header_names_level(header) {
        let hc = crate::text::chars_of(header);
        let (a, b) = crate::text::trim_range(&hc);
        let name = header.substring_char(a, b).to_owned();
        build_map(name, &rows)
    } else {
        let mut grid: Vec<Vec<char>> = Vec::new();
        grid.push(crate::text::chars_of(header));
        let mut rows = rows;
        let ghost rv = rows_view(rows@);
        grid.append(&mut rows);
        assert(rows_view(grid@) =~= seq![header@] + rv);
        build_map(String::new(), &grid)
    }
}

/// The level that the header line `header` and the map lines `unparsed_lines`
/// describe.
pub fn parse_map(header: &str, unparsed_lines: &[&str]) -> (m: GameMap)
    requires
        grid_fits(level_grid(header@, Seq::new(unparsed_lines@.len(), |i: int| unparsed_lines@[i]@))),
    ensures
        parsed_from(m, header@, Seq::new(unparsed_lines@.len(), |i: int| unparsed_lines@[i]@)),
        m.wf(),
        places_player(header@, Seq::new(unparsed_lines@.len(), |i: int| unparsed_lines@[i]@))
            ==> m.sound(),
{
    let mut rows: Vec<Vec<char>> = Vec::new();
    let mut i: usize = 0;
    while i < unparsed_lines.len()
        invariant
            i <= unparsed_lines@.len(),
            rows_view(rows@) == Seq::new(i as nat, |j: int| unparsed_lines@[j]@),
        decreases unparsed_lines@.len() - i,
    {
        let ghost before = rows_view(rows@);
        let line: &str = unparsed_lines[i];
        let cs = crate::text::chars_of(line);
        assert(cs@ == unparsed_lines@[i as int]@);
        rows.push(cs);
        assert(rows_view(rows@) =~= before.push(unparsed_lines@[i as int]@));
        assert(rows_view(rows@) =~= Seq::new(i as nat + 1, |j: int| unparsed_lines@[j]@));
        i = i + 1;
    }
    assert(rows_view(rows@) =~= Seq::new(unparsed_lines@.len(), |j: int| unparsed_lines@[j]@));
    parse_rows(header, rows)
}

/// Line `j` is the first of `ls` that is not blank.
pub open spec fn first_content(ls: Seq<Seq<char>>, j: int) -> bool {
    &&& 0 <= j < ls.len()
    &&& !is_blank(ls[j])
    &&& forall|k: int| 0 <= k < j ==> is_blank(#[trigger] ls[k])
}

/// The lines of `ls` that are not blank, in order.
pub open spec fn content_lines(ls: Seq<Seq<char>>) -> Seq<Seq<char>>
    decreases ls.len(),
{
    if ls.len() == 0 {
        Seq::empty()
    } else {
        let r = content_lines(ls.drop_last());
        if is_blank(ls.last()) {
            r
        } else {
            r.push(ls.last())
        }
    }
}

/// The level that the text `piece` holds, as header and map lines: the header
/// is its first non-blank line, the map lines are the non-blank lines after it,
/// and there is no level when either is missing.
pub open spec fn level_of(piece: Seq<char>) -> Option<(Seq<char>, Seq<Seq<char>>)> {
    let ls = lines_of(piece);
    if exists|j: int| first_content(ls, j) {
        let j = choose|j: int| first_content(ls, j);
        let rest = content_lines(ls.subrange(j + 1, ls.len() as int));
        if rest.len() == 0 {
            None
        } else {
            Some((ls[j], rest))
        }
    } else {
        None
    }
}

/// The levels that the pieces hold, in order, skipping pieces without one.
pub open spec fn levels_of(pieces: Seq<Seq<char>>) -> Seq<(Seq<char>, Seq<Seq<char>>)>
    decreases pieces.len(),
{
    if pieces.len() == 0 {
        Seq::empty()
    } else {
        let r = levels_of(pieces.drop_last());
        match level_of(pieces.last()) {
            Some(l) => r.push(l),
            None => r,
        }
    }
}

/// The levels of a puzzle set: the text between ';' separators, level by level.
pub open spec fn puzzle_levels(contents: Seq<char>) -> Seq<(Seq<char>, Seq<Seq<char>>)> {
    levels_of(split_on(contents, ';'))
}

/// The characters of `s[a..b]`.
fn copy_range(s: &Vec<char>, a: usize, b: usize) -> (v: Vec<char>)
    requires
        a <= b <= s@.len(),
    ensures
        v@ == s@.subrange(a as int, b as int),
{
    let mut v: Vec<char> = Vec::new();
    let mut i: usize = a;
    while i < b
        invariant
            a <= i <= b <= s@.len(),
            v@ == s@.subrange(a as int, i as int),
        decreases b - i,
    {
        v.push(s[i]);
        assert(v@ =~= s@.subrange(a as int, i as int + 1));
        i = i + 1;
    }
    v
}

/// The range of the header line and the map rows of the level in `s[lo..hi]`,
/// if that text holds one.
#[verifier::loop_isolation(false)]
fn level_parts(s: &Vec<char>, lo: usize, hi: usize) -> (r: Option<((usize, usize), Vec<Vec<char>>)>)
    requires
        lo <= hi <= s@.len(),
    ensures
        match r {
            None => level_of(s@.subrange(lo as int, hi as int)) is None,
            Some((h, rows)) => {
                &&& lo <= h.0 <= h.1 <= hi
                &&& level_of(s@.subrange(lo as int, hi as int)) == Some(
                    (s@.subrange(h.0 as int, h.1 as int), rows_view(rows@)),
                )
            },
        },
{
    let lr = line_ranges(s, lo, hi);
    let ghost piece = s@.subrange(lo as int, hi as int);
    let ghost ls = lines_of(piece);
    assert(pieces(s@, lr@) == ls);
    let n = lr.len();
    let mut j: usize = 0;
    while j < n && range_is_blank(s, lr[j].0, lr[j].1)
        invariant
            j <= n == ls.len(),
            forall|k: int| 0 <= k < j ==> is_blank(#[trigger] ls[k]),
        decreases n - j,
    {
        assert(ls[j as int] == s@.subrange(lr@[j as int].0 as int, lr@[j as int].1 as int));
        j = j + 1;
    }
    if j == n {
        assert(!exists|k: int| first_content(ls, k));
        return None;
    }
    assert(ls[j as int] == s@.subrange(lr@[j as int].0 as int, lr@[j as int].1 as int));
    assert(first_content(ls, j as int));
    assert forall|k: int| #[trigger] first_content(ls, k) implies k == j by {
        if k < j {
            assert(is_blank(ls[k]));
        }
        if k > j {
            assert(is_blank(ls[j as int]));
        }
    }
    let mut rows: Vec<Vec<char>> = Vec::new();
    let mut k: usize = j + 1;
    assert(ls.subrange(j + 1, k as int) =~= Seq::<Seq<char>>::empty());
    while k < n
        invariant
            j + 1 <= k <= n == ls.len(),
            rows_view(rows@) == content_lines(ls.subrange(j + 1, k as int)),
        decreases n - k,
    {
        let (a, b) = lr[k];
        assert(ls[k as int] == s@.subrange(a as int, b as int));
        let ghost t = ls.subrange(j + 1, k + 1);
        assert(t.drop_last() =~= ls.subrange(j + 1, k as int));
        assert(t.last() == ls[k as int]);
        if !range_is_blank(s, a, b) {
            let ghost before = rows_view(rows@);
            rows.push(copy_range(s, a, b));
            assert(rows_view(rows@) =~= before.push(ls[k as int]));
        }
        k = k + 1;
    }
    assert(ls.subrange(j + 1, n as int) == ls.subrange(j + 1, ls.len() as int));
    if rows.len() == 0 {
        None
    } else {
        Some((lr[j], rows))
    }
}

/// The levels of the first `k` pieces are the first levels of all the pieces.
proof fn lemma_levels_prefix(pieces: Seq<Seq<char>>, k: int)
    requires
        0 <= k <= pieces.len(),
    ensures
        levels_of(pieces.take(k)).len() <= levels_of(pieces).len(),
        forall|i: int|
            0 <= i < levels_of(pieces.take(k)).len() ==> #[trigger] levels_of(pieces.take(k))[i]
                == levels_of(pieces)[i],
    decreases pieces.len(),
{
    if k == pieces.len() {
        assert(pieces.take(k) =~= pieces);
    } else {
        let d = pieces.drop_last();
        assert(pieces.take(k) =~= d.take(k));
        lemma_levels_prefix(d, k);
    }
}

/// The levels of a puzzle set file: its text is split at ';', and each piece
/// with a header line and at least one map line after it gives a level.
#[verifier::loop_isolation(false)]
pub fn parse_levels(contents: &str) -> (maps: Vec<GameMap>)
    requires
        forall|i: int|
            0 <= i < puzzle_levels(contents@).len() ==> #[trigger] grid_fits(
                level_grid(puzzle_levels(contents@)[i].0, puzzle_levels(contents@)[i].1),
            ),
    ensures
        maps@.len() == puzzle_levels(contents@).len(),
        forall|i: int|
            0 <= i < maps@.len() ==> #[trigger] parsed_from(
                maps@[i],
                puzzle_levels(contents@)[i].0,
                puzzle_levels(contents@)[i].1,
            ) && maps@[i].wf() && (places_player(
                puzzle_levels(contents@)[i].0,
                puzzle_levels(contents@)[i].1,
            ) ==> maps@[i].sound()),
{
    let chars = crate::text::chars_of(contents);
    let pr = split_ranges(&chars, 0, chars.len(), ';');
    let ghost ps = split_on(contents@, ';');
    assert(chars@.subrange(0, chars@.len() as int) =~= contents@);
    let mut maps: Vec<GameMap> = Vec::new();
    let mut p: usize = 0;
    assert(ps.take(0) =~= Seq::<Seq<char>>::empty());
    while p < pr.len()
        invariant
            p <= pr@.len() == ps.len(),
            pieces(chars@, pr@) == ps,
            maps@.len() == levels_of(ps.take(p as int)).len(),
            forall|i: int|
                0 <= i < maps@.len() ==> #[trigger] parsed_from(
                    maps@[i],
                    levels_of(ps.take(p as int))[i].0,
                    levels_of(ps.take(p as int))[i].1,
                ) && maps@[i].wf() && (places_player(
                    levels_of(ps.take(p as int))[i].0,
                    levels_of(ps.take(p as int))[i].1,
                ) ==> maps@[i].sound()),
        decreases pr@.len() - p,
    {
        let (lo, hi) = pr[p];
        assert(ps[p as int] == chars@.subrange(lo as int, hi as int));
        assert(ps.take(p + 1).drop_last() =~= ps.take(p as int));
        assert(ps.take(p + 1).last() == ps[p as int]);
        let ghost before = levels_of(ps.take(p as int));
        match level_parts(&chars, lo, hi) {
            Some((h, rows)) => {
                let header = contents.substring_char(h.0, h.1);
                assert(header@ == chars@.subrange(h.0 as int, h.1 as int));
                let ghost rv = rows_view(rows@);
                let ghost now = levels_of(ps.take(p as int + 1));
                assert(now == before.push((header@, rv)));
                proof {
                    lemma_levels_prefix(ps, p as int + 1);
                    assert(ps.take(ps.len() as int) =~= ps);
                    assert(puzzle_levels(contents@) == levels_of(ps));
                    assert(puzzle_levels(contents@)[before.len() as int] == now[before.len() as int]);
                    assert(grid_fits(level_grid(
                        puzzle_levels(contents@)[before.len() as int].0,
                        puzzle_levels(contents@)[before.len() as int].1,
                    )));
                }
                let m = parse_rows(header, rows);
                maps.push(m);
                assert(maps@[maps@.len() - 1] == m);
                assert forall|i: int| 0 <= i < maps@.len() implies #[trigger] parsed_from(
                    maps@[i],
                    levels_of(ps.take(p as int + 1))[i].0,
                    levels_of(ps.take(p as int + 1))[i].1,
                ) && maps@[i].wf() && (places_player(
                    levels_of(ps.take(p as int + 1))[i].0,
                    levels_of(ps.take(p as int + 1))[i].1,
                ) ==> maps@[i].sound()) by {
                    if i < maps@.len() - 1 {
                        assert(levels_of(ps.take(p as int + 1))[i] == before[i]);
                    }
                }
            },
            None => {},
        }
        p = p + 1;
    }
    assert(ps.take(ps.len() as int) =~= ps);
    assert(levels_of(ps.take(p as int)) == puzzle_levels(contents@));
    maps
}

/// Cell `a` comes before cell `b` in reading order: an earlier row, or the same
/// row further left.
pub open spec fn reads_before(a: (i32, i32), b: (i32, i32)) -> bool {
    a.1 < b.1 || (a.1 == b.1 && a.0 < b.0)
}

/// Every row is at most `max_width` long.
proof fn lemma_max_width(grid: Seq<Seq<char>>)
    ensures
        forall|y: int| 0 <= y < grid.len() ==> (#[trigger] grid[y]).len() <= max_width(grid),
    decreases grid.len(),
{
    if grid.len() > 0 {
        lemma_max_width(grid.drop_last());
        assert forall|y: int| 0 <= y < grid.len() implies (#[trigger] grid[y]).len() <= max_width(
            grid,
        ) by {
            if y < grid.len() - 1 {
                assert(grid[y] == grid.drop_last()[y]);
            }
        }
    }
}

/// The cells of a row lie in that row, on tiles of the kind, left to right.
proof fn lemma_row_cells(row: Seq<char>, y: int, m: Mark)
    requires
        row.len() < i32::MAX,
        0 <= y < i32::MAX,
    ensures
        forall|i: int|
            0 <= i < row_cells(row, y, m).len() ==> {
                let c = #[trigger] row_cells(row, y, m)[i];
                &&& c.1 == y
                &&& 0 <= c.0 < row.len()
                &&& marks(m, row[c.0 as int])
            },
        forall|i: int, j: int|
            0 <= i < j < row_cells(row, y, m).len() ==> #[trigger] row_cells(row, y, m)[i].0
                < #[trigger] row_cells(row, y, m)[j].0,
    decreases row.len(),
{
    if row.len() > 0 {
        let r = row_cells(row.drop_last(), y, m);
        lemma_row_cells(row.drop_last(), y, m);
        assert(row_cells(row, y, m) == if marks(m, row.last()) {
            r.push(((row.len() - 1) as i32, y as i32))
        } else {
            r
        });
    }
}

/// The cells of a grid lie on tiles of the kind, in reading order.
proof fn lemma_grid_cells(grid: Seq<Seq<char>>, m: Mark)
    requires
        grid_fits(grid),
    ensures
        forall|i: int|
            0 <= i < grid_cells(grid, m).len() ==> {
                let c = #[trigger] grid_cells(grid, m)[i];
                &&& 0 <= c.1 < grid.len()
                &&& 0 <= c.0 < grid[c.1 as int].len()
                &&& marks(m, grid[c.1 as int][c.0 as int])
            },
        forall|i: int, j: int|
            0 <= i < j < grid_cells(grid, m).len() ==> reads_before(
                #[trigger] grid_cells(grid, m)[i],
                #[trigger] grid_cells(grid, m)[j],
            ),
    decreases grid.len(),
{
    if grid.len() > 0 {
        let g0 = grid.drop_last();
        let y = grid.len() - 1;
        assert forall|k: int| 0 <= k < g0.len() implies (#[trigger] g0[k]).len() < i32::MAX by {
            assert(g0[k] == grid[k]);
        }
        lemma_grid_cells(g0, m);
        assert(grid[y].len() < i32::MAX);
        lemma_row_cells(grid.last(), y, m);
        let a = grid_cells(g0, m);
        let b = row_cells(grid.last(), y, m);
        let c = grid_cells(grid, m);
        assert(c == a + b);
        assert forall|i: int| 0 <= i < c.len() implies {
            let p = #[trigger] c[i];
            &&& 0 <= p.1 < grid.len()
            &&& 0 <= p.0 < grid[p.1 as int].len()
            &&& marks(m, grid[p.1 as int][p.0 as int])
        } by {
            if i < a.len() {
                assert(c[i] == a[i]);
                assert(g0[a[i].1 as int] == grid[a[i].1 as int]);
            } else {
                assert(c[i] == b[i - a.len()]);
            }
        }
        assert forall|i: int, j: int| 0 <= i < j < c.len() implies reads_before(
            #[trigger] c[i],
            #[trigger] c[j],
        ) by {
            if j < a.len() {
                assert(c[i] == a[i] && c[j] == a[j]);
            } else if i < a.len() {
                assert(c[i] == a[i] && c[j] == b[j - a.len()]);
            } else {
                assert(c[i] == b[i - a.len()] && c[j] == b[j - a.len()]);
            }
        }
    }
}

/// A freshly built map whose grid places the player is sound: everything lies
/// on the board, nothing stands on a wall, and each cell holds at most one of
/// the player and the cubes.
pub proof fn lemma_built_map_sound(m: GameMap, name: Seq<char>, grid: Seq<Seq<char>>)
    requires
        built_from(m, name, grid),
        grid_fits(grid),
        grid_cells(grid, Mark::Player).len() > 0,
    ensures
        m.sound(),
{
    lemma_grid_cells(grid, Mark::Player);
    lemma_grid_cells(grid, Mark::Cube);
    lemma_grid_cells(grid, Mark::Wall);
    lemma_max_width(grid);
    let pc = grid_cells(grid, Mark::Player);
    let cc = grid_cells(grid, Mark::Cube);
    let wc = grid_cells(grid, Mark::Wall);
    let p = pc[pc.len() - 1];
    assert(p == (m.player.x, m.player.y));
    assert(cube_cells(m.cubes@) == cc);
    assert(wall_cells(m.walls@) == wc);
    assert(!m.wall_at(p.0 as int, p.1 as int)) by {
        if m.wall_at(p.0 as int, p.1 as int) {
            let i = choose|i: int|
                0 <= i < m.walls@.len() && #[trigger] m.walls@[i].x == p.0 && m.walls@[i].y == p.1;
            assert(wc[i] == (m.walls@[i].x, m.walls@[i].y));
        }
    }
    assert forall|i: int| 0 <= i < cc.len() implies #[trigger] cc[i] != p && !m.wall_at(
        cc[i].0 as int,
        cc[i].1 as int,
    ) && m.in_bounds(cc[i].0 as int, cc[i].1 as int) by {
        if m.wall_at(cc[i].0 as int, cc[i].1 as int) {
            let k = choose|k: int|
                0 <= k < m.walls@.len() && #[trigger] m.walls@[k].x == cc[i].0 && m.walls@[k].y
                    == cc[i].1;
            assert(wc[k] == (m.walls@[k].x, m.walls@[k].y));
        }
    }
    assert forall|i: int, j: int| 0 <= i < cc.len() && 0 <= j < cc.len() && i != j implies #[trigger] cc[i]
        != #[trigger] cc[j] by {
        if i < j {
            assert(reads_before(cc[i], cc[j]));
        } else {
            assert(reads_before(cc[j], cc[i]));
        }
    }
    assert(m.layout_ok((m.player.x, m.player.y), cube_cells(m.cubes@)));
}

/// Whether `rows` are at most `i32::MAX - 1` in number and in length each.
fn rows_fit(rows: &Vec<Vec<char>>) -> (r: bool)
    ensures
        r == (rows@.len() < i32::MAX && forall|y: int|
            0 <= y < rows@.len() ==> (#[trigger] rows@[y])@.len() < i32::MAX),
{
    if rows.len() >= 0x7fff_ffff {
        return false;
    }
    let mut y: usize = 0;
    while y < rows.len()
        invariant
            y <= rows@.len(),
            forall|k: int| 0 <= k < y ==> (#[trigger] rows@[k])@.len() < i32::MAX,
        decreases rows@.len() - y,
    {
        if rows[y].len() >= 0x7fff_ffff {
            return false;
        }
        y = y + 1;
    }
    true
}

/// Whether every level of the puzzle set `contents` fits the `i32`
/// coordinates of a map, which `parse_levels` asks of its input.
#[verifier::loop_isolation(false)]
pub fn levels_fit(contents: &str) -> (r: bool)
    ensures
        r == forall|i: int|
            0 <= i < puzzle_levels(contents@).len() ==> #[trigger] grid_fits(
                level_grid(puzzle_levels(contents@)[i].0, puzzle_levels(contents@)[i].1),
            ),
{
    let chars = crate::text::chars_of(contents);
    let pr = split_ranges(&chars, 0, chars.len(), ';');
    let ghost ps = split_on(contents@, ';');
    assert(chars@.subrange(0, chars@.len() as int) =~= contents@);
    let mut p: usize = 0;
    assert(ps.take(0) =~= Seq::<Seq<char>>::empty());
    while p < pr.len()
        invariant
            p <= pr@.len() == ps.len(),
            pieces(chars@, pr@) == ps,
            forall|i: int|
                0 <= i < levels_of(ps.take(p as int)).len() ==> #[trigger] grid_fits(
                    level_grid(levels_of(ps.take(p as int))[i].0, levels_of(ps.take(p as int))[i].1),
                ),
        decreases pr@.len() - p,
    {
        let (lo, hi) = pr[p];
        assert(ps[p as int] == chars@.subrange(lo as int, hi as int));
        assert(ps.take(p + 1).drop_last() =~= ps.take(p as int));
        assert(ps.take(p + 1).last() == ps[p as int]);
        let ghost before = levels_of(ps.take(p as int));
        match level_parts(&chars, lo, hi) {
            Some((h, rows)) => {
                let header = contents.substring_char(h.0, h.1);
                assert(header@ == chars@.subrange(h.0 as int, h.1 as int));
                let ghost rv = rows_view(rows@);
                let ghost now = levels_of(ps.take(p as int + 1));
                assert(now == before.push((header@, rv)));
                let ghost g = level_grid(header@, rv);
                let grid = if header_names_level(header) {
                    rows
                } else {
                    let mut grid: Vec<Vec<char>> = Vec::new();
                    grid.push(crate::text::chars_of(header));
                    let mut rows = rows;
                    grid.append(&mut rows);
                    grid
                };
                assert(rows_view(grid@) =~= g);
                let ok = rows_fit(&grid);
                proof {
                    if grid_fits(g) {
                        assert forall|y: int| 0 <= y < grid@.len() implies (#[trigger] grid@[y])@.len()
                            < i32::MAX by {
                            assert(g[y] == grid@[y]@);
                        }
                    }
                }
                if !ok {
                    proof {
                        lemma_levels_prefix(ps, p as int + 1);
                        assert(ps.take(ps.len() as int) =~= ps);
                        assert(puzzle_levels(contents@) == levels_of(ps));
                        let idx = before.len() as int;
                        assert(puzzle_levels(contents@)[idx] == now[idx]);
                        assert(!grid_fits(
                            level_grid(puzzle_levels(contents@)[idx].0, puzzle_levels(contents@)[idx].1),
                        ));
                    }
                    return false;
                }
                assert forall|i: int| 0 <= i < now.len() implies #[trigger] grid_fits(
                    level_grid(now[i].0, now[i].1),
                ) by {
                    if i < before.len() {
                        assert(now[i] == before[i]);
                    }
                }
            },
            None => {},
        }
        p = p + 1;
    }
    assert(ps.take(ps.len() as int) =~= ps);
    assert(levels_of(ps.take(p as int)) == puzzle_levels(contents@));
    true
}

/// `c` is one of the seven tile characters; every other character is floor.
pub open spec fn is_tile(c: char) -> bool {
    c == '#' || c == '@' || c == '$' || c == '.' || c == '*' || c == '+' || c == '€'
}

/// Rows `a` and `b` have the same shape and differ only where both hold floor.
pub open spec fn same_tiles(a: Seq<Seq<char>>, b: Seq<Seq<char>>) -> bool {
    &&& a.len() == b.len()
    &&& forall|y: int| 0 <= y < a.len() ==> (#[trigger] a[y]).len() == b[y].len()
    &&& forall|y: int, x: int|
        0 <= y < a.len() && 0 <= x < a[y].len() ==> (#[trigger] a[y][x] == b[y][x]) || (!is_tile(
            a[y][x],
        ) && !is_tile(b[y][x]))
}

/// Rows that differ only in floor characters place the same objects.
proof fn lemma_row_cells_floor(r1: Seq<char>, r2: Seq<char>, y: int, m: Mark)
    requires
        r1.len() == r2.len(),
        forall|x: int| 0 <= x < r1.len() ==> (#[trigger] r1[x] == r2[x]) || (!is_tile(r1[x])
            && !is_tile(r2[x])),
    ensures
        row_cells(r1, y, m) == row_cells(r2, y, m),
    decreases r1.len(),
{
    if r1.len() > 0 {
        let d1 = r1.drop_last();
        let d2 = r2.drop_last();
        assert forall|x: int| 0 <= x < d1.len() implies (#[trigger] d1[x] == d2[x]) || (!is_tile(
            d1[x],
        ) && !is_tile(d2[x])) by {
            assert(d1[x] == r1[x] && d2[x] == r2[x]);
        }
        lemma_row_cells_floor(d1, d2, y, m);
        let x = r1.len() - 1;
        assert(r1[x] == r2[x] || (!is_tile(r1[x]) && !is_tile(r2[x])));
        assert(marks(m, r1.last()) == marks(m, r2.last()));
    }
}

/// Grids that differ only in floor characters place the same objects and
/// have the same width.
proof fn lemma_grid_floor(a: Seq<Seq<char>>, b: Seq<Seq<char>>)
    requires
        same_tiles(a, b),
    ensures
        forall|m: Mark| #[trigger] grid_cells(a, m) == grid_cells(b, m),
        max_width(a) == max_width(b),
    decreases a.len(),
{
    if a.len() > 0 {
        let da = a.drop_last();
        let db = b.drop_last();
        assert forall|y: int| 0 <= y < da.len() implies (#[trigger] da[y]).len() == db[y].len() by {
            assert(da[y] == a[y] && db[y] == b[y]);
        }
        assert forall|y: int, x: int| 0 <= y < da.len() && 0 <= x < da[y].len() implies (
        #[trigger] da[y][x] == db[y][x]) || (!is_tile(da[y][x]) && !is_tile(db[y][x])) by {
            assert(da[y] == a[y] && db[y] == b[y]);
            assert(a[y][x] == b[y][x] || (!is_tile(a[y][x]) && !is_tile(b[y][x])));
        }
        lemma_grid_floor(da, db);
        let y = a.len() - 1;
        assert(a[y].len() == b[y].len());
        assert forall|x: int| 0 <= x < a[y].len() implies (#[trigger] a[y][x] == b[y][x]) || (
        !is_tile(a[y][x]) && !is_tile(b[y][x])) by {}
        assert forall|m: Mark| #[trigger] grid_cells(a, m) == grid_cells(b, m) by {
            lemma_row_cells_floor(a.last(), b.last(), y, m);
            assert(grid_cells(da, m) == grid_cells(db, m));
        }
    }
}

/// Any character other than the seven tile characters is floor: map lines
/// that differ only where both hold such characters give the same level.
pub proof fn lemma_floor_characters(
    header: Seq<char>,
    lines1: Seq<Seq<char>>,
    lines2: Seq<Seq<char>>,
    m1: GameMap,
    m2: GameMap,
)
    requires
        same_tiles(lines1, lines2),
        parsed_from(m1, header, lines1),
        parsed_from(m2, header, lines2),
    ensures
        m1.same_state(m2),
{
    let g1 = level_grid(header, lines1);
    let g2 = level_grid(header, lines2);
    if !names_level(header) {
        assert forall|y: int| 0 <= y < g1.len() implies (#[trigger] g1[y]).len() == g2[y].len() by {
            if y > 0 {
                assert(g1[y] == lines1[y - 1] && g2[y] == lines2[y - 1]);
            }
        }
        assert forall|y: int, x: int| 0 <= y < g1.len() && 0 <= x < g1[y].len() implies (
        #[trigger] g1[y][x] == g2[y][x]) || (!is_tile(g1[y][x]) && !is_tile(g2[y][x])) by {
            if y > 0 {
                assert(g1[y] == lines1[y - 1] && g2[y] == lines2[y - 1]);
                assert(lines1[y - 1][x] == lines2[y - 1][x] || (!is_tile(lines1[y - 1][x])
                    && !is_tile(lines2[y - 1][x])));
            }
        }
    }
    assert(same_tiles(g1, g2));
    lemma_grid_floor(g1, g2);
    assert(grid_cells(g1, Mark::Player) == grid_cells(g2, Mark::Player));
    assert(grid_cells(g1, Mark::Finish) == grid_cells(g2, Mark::Finish));
    assert(grid_cells(g1, Mark::Cube) == grid_cells(g2, Mark::Cube));
    assert(grid_cells(g1, Mark::Button) == grid_cells(g2, Mark::Button));
    assert(grid_cells(g1, Mark::Wall) == grid_cells(g2, Mark::Wall));
    assert(m1.player.location_history@ =~= m2.player.location_history@);
    assert(cube_cells(m1.cubes@) == cube_cells(m2.cubes@));
    assert(m1.cubes@.len() == cube_cells(m1.cubes@).len());
    assert(m2.cubes@.len() == cube_cells(m2.cubes@).len());
    assert forall|i: int| 0 <= i < m1.cubes@.len() implies {
        &&& (#[trigger] m1.cubes@[i]).x == m2.cubes@[i].x
        &&& m1.cubes@[i].y == m2.cubes@[i].y
        &&& m1.cubes@[i].location_history@ == m2.cubes@[i].location_history@
    } by {
        assert(cube_cells(m1.cubes@)[i] == cube_cells(m2.cubes@)[i]);
        assert(m1.cubes@[i].location_history@.len() == 0);
        assert(m2.cubes@[i].location_history@.len() == 0);
        assert(m1.cubes@[i].location_history@ =~= m2.cubes@[i].location_history@);
    }
    assert(button_cells(m1.buttons@) == button_cells(m2.buttons@));
    assert(m1.buttons@.len() == button_cells(m1.buttons@).len());
    assert(m2.buttons@.len() == button_cells(m2.buttons@).len());
    assert forall|i: int| 0 <= i < m1.buttons@.len() implies #[trigger] m1.buttons@[i]
        == m2.buttons@[i] by {
        assert(button_cells(m1.buttons@)[i] == button_cells(m2.buttons@)[i]);
    }
    assert(m1.buttons@ =~= m2.buttons@);
    assert(wall_cells(m1.walls@) == wall_cells(m2.walls@));
    assert(m1.walls@.len() == wall_cells(m1.walls@).len());
    assert(m2.walls@.len() == wall_cells(m2.walls@).len());
    assert forall|i: int| 0 <= i < m1.walls@.len() implies #[trigger] m1.walls@[i]
        == m2.walls@[i] by {
        assert(wall_cells(m1.walls@)[i] == wall_cells(m2.walls@)[i]);
    }
    assert(m1.walls@ =~= m2.walls@);
}

} // verus!
