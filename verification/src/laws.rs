use vstd::prelude::*;
use crate::session::{Command, Reaction, Session, command_direction};
use crate::game::{GameMap, some_cube_on, cube_cells, cube_cells_before, cube_on, is_first_cube_on, step_target};

verus! {

/// Undo takes back a move that was not blocked: the player, every cube and
/// every history are as they were before the move.
pub proof fn lemma_undo_reverts_move(m0: GameMap, m1: GameMap, m2: GameMap, direction: char)
    requires
        GameMap::player_moved(m0, m1, direction),
        !m0.move_blocked(direction),
        GameMap::undone(m1, m2),
    ensures
        m2.same_state(m0),
{
    lemma_undo_reverts_move_from(m0, m1, m1, m2, direction);
}

/// Undo from any map in the state that a move that was not blocked left gives
/// back the state before that move.
pub proof fn lemma_undo_reverts_move_from(
    m0: GameMap,
    m1: GameMap,
    m1b: GameMap,
    m2: GameMap,
    direction: char,
)
    requires
        GameMap::player_moved(m0, m1, direction),
        !m0.move_blocked(direction),
        m1b.same_state(m1),
        GameMap::undone(m1b, m2),
    ensures
        m2.same_state(m0),
{
    assert(m2.player.location_history@ =~= m0.player.location_history@);
    assert forall|i: int| 0 <= i < m2.cubes@.len() implies {
        &&& (#[trigger] m2.cubes@[i]).x == m0.cubes@[i].x
        &&& m2.cubes@[i].y == m0.cubes@[i].y
        &&& m2.cubes@[i].location_history@ == m0.cubes@[i].location_history@
    } by {
        assert(m1.cubes@[i].location_history@.len() > 0);
        assert(m1b.cubes@[i].location_history@ == m1.cubes@[i].location_history@);
        assert(m2.cubes@[i].location_history@ =~= m0.cubes@[i].location_history@);
    }
}

/// `moved` is the run of maps that the moves `directions` go through, none of
/// them blocked.
pub open spec fn unblocked_run(moved: Seq<GameMap>, directions: Seq<char>) -> bool {
    &&& moved.len() == directions.len() + 1
    &&& forall|i: int|
        0 <= i < directions.len() ==> GameMap::player_moved(
            moved[i],
            #[trigger] moved[i + 1],
            directions[i],
        ) && !moved[i].move_blocked(directions[i])
}

/// `undos` starts at `start` and each map is an undo of the one before.
pub open spec fn undo_run(undos: Seq<GameMap>, start: GameMap) -> bool {
    &&& undos.len() >= 1
    &&& undos[0] == start
    &&& forall|j: int| 0 <= j < undos.len() - 1 ==> GameMap::undone(undos[j], #[trigger] undos[j + 1])
}

/// After `j` of the undos, the map is in the state before the last `j` moves.
proof fn lemma_undo_run_step(moved: Seq<GameMap>, directions: Seq<char>, undos: Seq<GameMap>, j: int)
    requires
        unblocked_run(moved, directions),
        undo_run(undos, moved[directions.len() as int]),
        undos.len() == moved.len(),
        0 <= j <= directions.len(),
    ensures
        undos[j].same_state(moved[directions.len() - j]),
    decreases j,
{
    let k = directions.len() as int;
    if j > 0 {
        lemma_undo_run_step(moved, directions, undos, j - 1);
        let jj = j - 1;
        assert(GameMap::undone(undos[jj], undos[jj + 1]));
        assert(GameMap::player_moved(moved[k - j], moved[k - j + 1], directions[k - j]));
        lemma_undo_reverts_move_from(
            moved[k - j],
            moved[k - j + 1],
            undos[j - 1],
            undos[j],
            directions[k - j],
        );
    }
}

/// As many undos as there were moves, none of them blocked, give back the map
/// as it was before the moves: positions and every history.
pub proof fn lemma_undos_revert_moves(
    moved: Seq<GameMap>,
    directions: Seq<char>,
    undos: Seq<GameMap>,
)
    requires
        unblocked_run(moved, directions),
        undo_run(undos, moved[directions.len() as int]),
        undos.len() == moved.len(),
    ensures
        undos[directions.len() as int].same_state(moved[0]),
{
    lemma_undo_run_step(moved, directions, undos, directions.len() as int);
}

/// A blocked move changes nothing.
pub proof fn lemma_blocked_move_is_noop(m0: GameMap, m1: GameMap, direction: char)
    requires
        GameMap::player_moved(m0, m1, direction),
        m0.move_blocked(direction),
    ensures
        m1 == m0,
{
}

/// A move keeps the layout sound: no object enters a wall, no cube lands on
/// another cube or on the player, and the history records a sound layout.
pub proof fn lemma_move_keeps_layout_sound(pre: GameMap, post: GameMap, direction: char)
    requires
        pre.wf(),
        pre.sound(),
        GameMap::player_moved(pre, post, direction),
    ensures
        post.sound(),
{
    if pre.move_blocked(direction) {
        return;
    }
    let t = step_target(pre.player.x as int, pre.player.y as int, direction);
    let c = step_target(t.0, t.1, direction);
    let old_cells = cube_cells(pre.cubes@);
    let new_cells = cube_cells(post.cubes@);
    let n = pre.cubes@.len();
    let h = pre.player.location_history@;
    assert(pre.walls@ == post.walls@);
    // Which cube, if any, was pushed.
    assert forall|i: int, j: int|
        is_first_cube_on(pre.cubes@, i, t.0, t.1) && 0 <= j < n && j != i implies !cube_on(
        pre.cubes@,
        j,
        t.0,
        t.1,
    ) by {
        if cube_on(pre.cubes@, j, t.0, t.1) {
            assert(old_cells[i] == old_cells[j]);
        }
    }
    assert forall|i: int| 0 <= i < n implies !(#[trigger] new_cells[i] == (post.player.x, post.player.y))
        && !post.wall_at(new_cells[i].0 as int, new_cells[i].1 as int) && post.in_bounds(
        new_cells[i].0 as int,
        new_cells[i].1 as int,
    ) by {
        assert(old_cells[i] == (pre.cubes@[i].x, pre.cubes@[i].y));
        assert(pre.cube_fits(pre.cubes@[i]));
        if is_first_cube_on(pre.cubes@, i, t.0, t.1) {
            assert(pre.cube_can_move(i, direction));
            if direction != 'u' && direction != 'd' && direction != 'l' && direction != 'r' {
                assert(old_cells[i] == (pre.player.x, pre.player.y));
            }
        } else {
            if cube_on(pre.cubes@, i, t.0, t.1) {
                let j = choose|j: int| 0 <= j < i && #[trigger] cube_on(pre.cubes@, j, t.0, t.1);
                assert(old_cells[i] == old_cells[j]);
            }
        }
    }
    assert forall|i: int, j: int| 0 <= i < n && 0 <= j < n && i != j implies #[trigger] new_cells[i]
        != #[trigger] new_cells[j] by {
        assert(old_cells[i] != old_cells[j]);
        if is_first_cube_on(pre.cubes@, i, t.0, t.1) {
            assert(pre.cube_can_move(i, direction));
            assert(!cube_on(pre.cubes@, j, c.0, c.1));
        }
        if is_first_cube_on(pre.cubes@, j, t.0, t.1) {
            assert(pre.cube_can_move(j, direction));
            assert(!cube_on(pre.cubes@, i, c.0, c.1));
        }
    }
    assert(post.layout_ok((post.player.x, post.player.y), new_cells));
    let ph = post.player.location_history@;
    assert forall|k: int| 0 <= k < ph.len() implies post.layout_ok(
        #[trigger] ph[k],
        cube_cells_before(post.cubes@, k),
    ) by {
        if k < h.len() {
            assert(pre.layout_ok(h[k], cube_cells_before(pre.cubes@, k)));
            assert forall|i: int| 0 <= i < n implies #[trigger] post.cubes@[i].location_history@[k]
                == pre.cubes@[i].location_history@[k] by {
                assert(pre.cube_fits(pre.cubes@[i]));
            }
            assert(cube_cells_before(post.cubes@, k) =~= cube_cells_before(pre.cubes@, k));
        } else {
            assert forall|i: int| 0 <= i < n implies #[trigger] post.cubes@[i].location_history@[k]
                == old_cells[i] by {
                assert(pre.cube_fits(pre.cubes@[i]));
            }
            assert(cube_cells_before(post.cubes@, k) =~= old_cells);
        }
    }
}

/// An undo keeps the layout sound: it returns to a layout that the history
/// recorded as sound.
pub proof fn lemma_undo_keeps_layout_sound(pre: GameMap, post: GameMap)
    requires
        pre.wf(),
        pre.sound(),
        GameMap::undone(pre, post),
    ensures
        post.sound(),
{
    let n = pre.cubes@.len();
    let h = pre.player.location_history@;
    assert(pre.walls@ == post.walls@);
    assert forall|i: int| 0 <= i < n implies (#[trigger] pre.cubes@[i]).location_history@.len()
        == h.len() by {
        assert(pre.cube_fits(pre.cubes@[i]));
    }
    if h.len() == 0 {
        assert(cube_cells(post.cubes@) =~= cube_cells(pre.cubes@));
    } else {
        let last = h.len() - 1;
        assert(pre.layout_ok(h[last], cube_cells_before(pre.cubes@, last)));
        assert(cube_cells(post.cubes@) =~= cube_cells_before(pre.cubes@, last));
        let ph = post.player.location_history@;
        assert forall|k: int| 0 <= k < ph.len() implies post.layout_ok(
            #[trigger] ph[k],
            cube_cells_before(post.cubes@, k),
        ) by {
            assert(pre.layout_ok(h[k], cube_cells_before(pre.cubes@, k)));
            assert(cube_cells_before(post.cubes@, k) =~= cube_cells_before(pre.cubes@, k));
        }
    }
}

/// Soundness depends only on the state: a map that agrees with a sound map in
/// fixtures, positions and histories is sound.
pub proof fn lemma_same_state_keeps_sound(a: GameMap, b: GameMap)
    requires
        a.same_state(b),
        b.sound(),
    ensures
        a.sound(),
{
    assert(cube_cells(a.cubes@) =~= cube_cells(b.cubes@));
    let h = a.player.location_history@;
    assert forall|k: int| 0 <= k < h.len() implies a.layout_ok(
        #[trigger] h[k],
        cube_cells_before(a.cubes@, k),
    ) by {
        assert(b.layout_ok(b.player.location_history@[k], cube_cells_before(b.cubes@, k)));
        assert(cube_cells_before(a.cubes@, k) =~= cube_cells_before(b.cubes@, k));
    }
}

/// In a game whose loaded levels are all sound, every command leaves the
/// current level sound.
pub proof fn lemma_session_keeps_layout_sound(
    pre: Session,
    post: Session,
    cmd: Command,
    r: Reaction,
)
    requires
        pre.wf(),
        pre.current.sound(),
        forall|i: int| 0 <= i < pre.levels@.len() ==> (#[trigger] pre.levels@[i]).sound(),
        post.levels == pre.levels,
        Session::handled(pre, post, cmd, r),
    ensures
        post.current.sound(),
{
    match cmd {
        Command::Up | Command::Down | Command::Left | Command::Right => {
            if !pre.solved() {
                lemma_move_keeps_layout_sound(pre.current, post.current, command_direction(cmd));
            }
        },
        Command::Undo => {
            if !pre.solved() {
                lemma_undo_keeps_layout_sound(pre.current, post.current);
            }
        },
        Command::Reset => {
            lemma_same_state_keeps_sound(post.current, pre.levels@[pre.index as int]);
        },
        Command::NextLevel => {
            if pre.solved() {
                assert(0 <= post.index < pre.levels@.len()) by (nonlinear_arith)
                    requires
                        post.index == (pre.index + 1) % (pre.levels@.len() as int),
                        pre.levels@.len() > 0,
                ;
                lemma_same_state_keeps_sound(post.current, pre.levels@[post.index as int]);
            }
        },
        Command::Quit => {},
    }
}

/// In a game whose loaded levels are all sound, skipping a level without goals
/// leaves the current level sound.
pub proof fn lemma_skip_keeps_layout_sound(pre: Session, post: Session, skipped: bool)
    requires
        pre.wf(),
        pre.current.sound(),
        forall|i: int| 0 <= i < pre.levels@.len() ==> (#[trigger] pre.levels@[i]).sound(),
        post.levels == pre.levels,
        Session::skipped(pre, post, skipped),
    ensures
        post.current.sound(),
{
    if skipped {
        assert(0 <= post.index < pre.levels@.len()) by (nonlinear_arith)
            requires
                post.index == (pre.index + 1) % (pre.levels@.len() as int),
                pre.levels@.len() > 0,
        ;
        lemma_same_state_keeps_sound(post.current, pre.levels@[post.index as int]);
    }
}

/// The cell that one step in `direction` ('u', 'd', 'l', 'r') leads to from
/// `(x, y)` is `(tx, ty)`: up is one row less, down one row more, left one
/// column less, right one column more.
pub open spec fn one_step(x: int, y: int, direction: char, tx: int, ty: int) -> bool {
    ||| direction == 'u' && tx == x && ty == y - 1
    ||| direction == 'd' && tx == x && ty == y + 1
    ||| direction == 'l' && tx == x - 1 && ty == y
    ||| direction == 'r' && tx == x + 1 && ty == y
}

/// No wall stands on `(x, y)`.
pub open spec fn no_wall_on(m: GameMap, x: int, y: int) -> bool {
    forall|i: int| 0 <= i < m.walls@.len() ==> !(#[trigger] m.walls@[i].x == x && m.walls@[i].y == y)
}

/// No cube stands on `(x, y)`.
pub open spec fn no_cube_on(m: GameMap, x: int, y: int) -> bool {
    forall|i: int| 0 <= i < m.cubes@.len() ==> !(#[trigger] m.cubes@[i].x == x && m.cubes@[i].y == y)
}

/// A step onto a cell of the board that holds neither a wall nor a cube always
/// succeeds, whatever button or finish lies there: the player stands on that
/// cell, its history records the cell it left, and no cube moves.
pub proof fn lemma_free_cell_is_entered(pre: GameMap, post: GameMap, direction: char, tx: int, ty: int)
    requires
        GameMap::player_moved(pre, post, direction),
        one_step(pre.player.x as int, pre.player.y as int, direction, tx, ty),
        0 <= tx < pre.width,
        0 <= ty < pre.height,
        no_wall_on(pre, tx, ty),
        no_cube_on(pre, tx, ty),
    ensures
        post.player.x == tx,
        post.player.y == ty,
        post.player.location_history@ == pre.player.location_history@.push(
            (pre.player.x, pre.player.y),
        ),
        post.cubes@.len() == pre.cubes@.len(),
        forall|i: int|
            0 <= i < pre.cubes@.len() ==> (#[trigger] post.cubes@[i]).x == pre.cubes@[i].x
                && post.cubes@[i].y == pre.cubes@[i].y,
{
    if pre.wall_at(tx, ty) {
        let i = choose|i: int|
            0 <= i < pre.walls@.len() && #[trigger] pre.walls@[i].x == tx && pre.walls@[i].y == ty;
        assert(!(pre.walls@[i].x == tx && pre.walls@[i].y == ty));
    }
    assert forall|i: int| !#[trigger] is_first_cube_on(pre.cubes@, i, tx, ty) by {
        if 0 <= i < pre.cubes@.len() {
            assert(!(pre.cubes@[i].x == tx && pre.cubes@[i].y == ty));
        }
    }
}

/// A step off the board or into a wall changes nothing.
pub proof fn lemma_wall_and_edge_block(pre: GameMap, post: GameMap, direction: char, tx: int, ty: int)
    requires
        GameMap::player_moved(pre, post, direction),
        one_step(pre.player.x as int, pre.player.y as int, direction, tx, ty),
        !(0 <= tx < pre.width && 0 <= ty < pre.height) || !no_wall_on(pre, tx, ty),
    ensures
        post == pre,
{
    if !no_wall_on(pre, tx, ty) {
        let i = choose|i: int|
            0 <= i < pre.walls@.len() && (#[trigger] pre.walls@[i].x == tx && pre.walls@[i].y == ty);
        assert(pre.wall_at(tx, ty));
    }
}

/// Stepping onto the one cube of a cell pushes it one cell further in the same
/// direction when that cell lies on the board and holds no wall and no cube:
/// the player takes the cube's cell and the cube the next one. Otherwise
/// nothing changes.
pub proof fn lemma_cube_is_pushed(
    pre: GameMap,
    post: GameMap,
    direction: char,
    k: int,
    tx: int,
    ty: int,
    ux: int,
    uy: int,
)
    requires
        GameMap::player_moved(pre, post, direction),
        one_step(pre.player.x as int, pre.player.y as int, direction, tx, ty),
        one_step(tx, ty, direction, ux, uy),
        0 <= tx < pre.width,
        0 <= ty < pre.height,
        no_wall_on(pre, tx, ty),
        0 <= k < pre.cubes@.len(),
        pre.cubes@[k].x == tx,
        pre.cubes@[k].y == ty,
        forall|j: int|
            0 <= j < pre.cubes@.len() && j != k ==> !(#[trigger] pre.cubes@[j].x == tx
                && pre.cubes@[j].y == ty),
    ensures
        (0 <= ux < pre.width && 0 <= uy < pre.height && no_wall_on(pre, ux, uy) && no_cube_on(
            pre,
            ux,
            uy,
        )) ==> {
            &&& post.player.x == tx
            &&& post.player.y == ty
            &&& post.cubes@[k].x == ux
            &&& post.cubes@[k].y == uy
        },
        !(0 <= ux < pre.width && 0 <= uy < pre.height && no_wall_on(pre, ux, uy) && no_cube_on(
            pre,
            ux,
            uy,
        )) ==> post == pre,
{
    if pre.wall_at(tx, ty) {
        let i = choose|i: int|
            0 <= i < pre.walls@.len() && #[trigger] pre.walls@[i].x == tx && pre.walls@[i].y == ty;
        assert(!(pre.walls@[i].x == tx && pre.walls@[i].y == ty));
    }
    assert(is_first_cube_on(pre.cubes@, k, tx, ty));
    assert forall|i: int| #[trigger] is_first_cube_on(pre.cubes@, i, tx, ty) implies i == k by {
        if i != k {
            assert(!(pre.cubes@[i].x == tx && pre.cubes@[i].y == ty));
        }
    }
    if 0 <= ux < pre.width && 0 <= uy < pre.height && no_wall_on(pre, ux, uy) && no_cube_on(
        pre,
        ux,
        uy,
    ) {
        if pre.wall_at(ux, uy) {
            let i = choose|i: int|
                0 <= i < pre.walls@.len() && #[trigger] pre.walls@[i].x == ux && pre.walls@[i].y
                    == uy;
            assert(!(pre.walls@[i].x == ux && pre.walls@[i].y == uy));
        }
        assert forall|j: int|
            !(0 <= j < pre.cubes@.len() && j != k && #[trigger] cube_on(pre.cubes@, j, ux, uy)) by {
            if 0 <= j < pre.cubes@.len() {
                assert(!(pre.cubes@[j].x == ux && pre.cubes@[j].y == uy));
            }
        }
        assert(pre.cube_can_move(k, direction));
        assert(!pre.move_blocked(direction));
        assert(post.cubes@[k].x == ux);
    } else {
        if !no_wall_on(pre, ux, uy) {
            let i = choose|i: int|
                0 <= i < pre.walls@.len() && (#[trigger] pre.walls@[i].x == ux && pre.walls@[i].y
                    == uy);
            assert(pre.wall_at(ux, uy));
        }
        if !no_cube_on(pre, ux, uy) {
            let j = choose|j: int|
                0 <= j < pre.cubes@.len() && (#[trigger] pre.cubes@[j].x == ux && pre.cubes@[j].y
                    == uy);
            assert(cube_on(pre.cubes@, j, ux, uy));
            assert(j != k);
        }
        assert(!pre.cube_can_move(k, direction));
        assert(pre.move_blocked(direction));
    }
}

/// Some cube stands on the cell of button `b`.
pub open spec fn cube_on_button(m: GameMap, b: int) -> bool {
    exists|i: int|
        0 <= i < m.cubes@.len() && #[trigger] m.cubes@[i].x == m.buttons@[b].x && m.cubes@[i].y
            == m.buttons@[b].y
}

/// A solved level has a cube on every button, and the player on the finish
/// when the level has one (a finish off the first row and column).
pub proof fn lemma_solved_level(m: GameMap)
    requires
        m.spec_finish_reached(),
        m.spec_all_buttons_pressed(),
    ensures
        forall|b: int| 0 <= b < m.buttons@.len() ==> #[trigger] cube_on_button(m, b),
        (m.finish.x != 0 && m.finish.y != 0) ==> (m.player.x == m.finish.x && m.player.y
            == m.finish.y),
{
    assert forall|b: int| 0 <= b < m.buttons@.len() implies #[trigger] cube_on_button(m, b) by {
        assert(some_cube_on(m.cubes@, m.buttons@[b].x as int, m.buttons@[b].y as int));
        let i = choose|i: int|
            0 <= i < m.cubes@.len() && #[trigger] cube_on(
                m.cubes@,
                i,
                m.buttons@[b].x as int,
                m.buttons@[b].y as int,
            );
        assert(m.cubes@[i].x == m.buttons@[b].x && m.cubes@[i].y == m.buttons@[b].y);
    }
}

/// A level with a cube on every button, and the player on the finish if there
/// is one, is solved.
pub proof fn lemma_level_solved(m: GameMap)
    requires
        forall|b: int| 0 <= b < m.buttons@.len() ==> #[trigger] cube_on_button(m, b),
        (m.finish.x != 0 && m.finish.y != 0) ==> (m.player.x == m.finish.x && m.player.y
            == m.finish.y),
    ensures
        m.spec_finish_reached(),
        m.spec_all_buttons_pressed(),
{
    assert forall|b: int| 0 <= b < m.buttons@.len() implies some_cube_on(
        m.cubes@,
        (#[trigger] m.buttons@[b]).x as int,
        m.buttons@[b].y as int,
    ) by {
        assert(cube_on_button(m, b));
        let i = choose|i: int|
            0 <= i < m.cubes@.len() && #[trigger] m.cubes@[i].x == m.buttons@[b].x
                && m.cubes@[i].y == m.buttons@[b].y;
        assert(cube_on(m.cubes@, i, m.buttons@[b].x as int, m.buttons@[b].y as int));
    }
}

/// A movement command on an unsolved level moves the player by its offset
/// (Up one row less, Down one row more, Left one column less, Right one column
/// more) onto a cell of the board that holds neither a wall nor a cube.
pub proof fn lemma_command_moves_player(
    pre: Session,
    post: Session,
    cmd: Command,
    r: Reaction,
    tx: int,
    ty: int,
)
    requires
        Session::handled(pre, post, cmd, r),
        !pre.solved(),
        ({
            let (x, y) = (pre.current.player.x as int, pre.current.player.y as int);
            ||| cmd == Command::Up && tx == x && ty == y - 1
            ||| cmd == Command::Down && tx == x && ty == y + 1
            ||| cmd == Command::Left && tx == x - 1 && ty == y
            ||| cmd == Command::Right && tx == x + 1 && ty == y
        }),
        0 <= tx < pre.current.width,
        0 <= ty < pre.current.height,
        no_wall_on(pre.current, tx, ty),
        no_cube_on(pre.current, tx, ty),
    ensures
        r == Reaction::Redraw,
        post.index == pre.index,
        post.current.player.x == tx,
        post.current.player.y == ty,
{
    let d = command_direction(cmd);
    assert(one_step(pre.current.player.x as int, pre.current.player.y as int, d, tx, ty));
    lemma_free_cell_is_entered(pre.current, post.current, d, tx, ty);
}

} // verus!
