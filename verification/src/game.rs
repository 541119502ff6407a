use vstd::prelude::*;

verus! {

/// The player: where it stands, and where it stood before each move so far.
pub struct Player {
    pub x: i32,
    pub y: i32,
    pub location_history: Vec<(i32, i32)>,
}

/// A cube that the player pushes; it keeps its own history of positions.
pub struct Cube {
    pub x: i32,
    pub y: i32,
    pub location_history: Vec<(i32, i32)>,
}

/// A button, pressed while a cube stands on it.
pub struct Button {
    pub x: i32,
    pub y: i32,
}

/// The finish tile; `(0, 0)` stands for a level without one.
pub struct Finish {
    pub x: i32,
    pub y: i32,
}

/// A wall tile.
pub struct Wall {
    pub x: i32,
    pub y: i32,
}

/// One level of the game, in play.
pub struct GameMap {
    pub name: String,
    pub width: i32,
    pub height: i32,
    pub player: Player,
    pub cubes: Vec<Cube>,
    pub buttons: Vec<Button>,
    pub finish: Finish,
    pub walls: Vec<Wall>,
}

/// The cell one step from `(x, y)` in `direction` ('u', 'd', 'l' or 'r');
/// any other direction stays on `(x, y)`.
pub open spec fn step_target(x: int, y: int, direction: char) -> (int, int) {
    if direction == 'u' {
        (x, y - 1)
    } else if direction == 'd' {
        (x, y + 1)
    } else if direction == 'l' {
        (x - 1, y)
    } else if direction == 'r' {
        (x + 1, y)
    } else {
        (x, y)
    }
}

/// `(x, y)` and its neighbours are coordinates that an `i32` can hold.
pub open spec fn coord_ok(x: int, y: int) -> bool {
    0 <= x < i32::MAX && 0 <= y < i32::MAX
}

/// Cube `i` of `cubes` stands on `(x, y)`.
pub open spec fn cube_on(cubes: Seq<Cube>, i: int, x: int, y: int) -> bool {
    cubes[i].x == x && cubes[i].y == y
}

/// Some cube of `cubes` stands on `(x, y)`.
pub open spec fn some_cube_on(cubes: Seq<Cube>, x: int, y: int) -> bool {
    exists|i: int| 0 <= i < cubes.len() && #[trigger] cube_on(cubes, i, x, y)
}

/// Cube `i` is the first cube of `cubes`, in order, that stands on `(x, y)`.
pub open spec fn is_first_cube_on(cubes: Seq<Cube>, i: int, x: int, y: int) -> bool {
    &&& 0 <= i < cubes.len()
    &&& cube_on(cubes, i, x, y)
    &&& forall|j: int| 0 <= j < i ==> !#[trigger] cube_on(cubes, j, x, y)
}

/// The positions of the cubes, in order.
pub open spec fn cube_cells(cubes: Seq<Cube>) -> Seq<(i32, i32)> {
    Seq::new(cubes.len(), |i: int| (cubes[i].x, cubes[i].y))
}

/// The positions that the cubes had before move `k`.
pub open spec fn cube_cells_before(cubes: Seq<Cube>, k: int) -> Seq<(i32, i32)> {
    Seq::new(cubes.len(), |i: int| cubes[i].location_history@[k])
}

impl GameMap {
    /// `(x, y)` lies on the board.
    pub open spec fn in_bounds(self, x: int, y: int) -> bool {
        0 <= x < self.width && 0 <= y < self.height
    }

    /// A wall stands on `(x, y)`.
    pub open spec fn wall_at(self, x: int, y: int) -> bool {
        exists|i: int|
            0 <= i < self.walls@.len() && #[trigger] self.walls@[i].x == x && self.walls@[i].y
                == y
    }

    /// A cube and its history hold usable coordinates, one entry per move.
    pub open spec fn cube_fits(self, c: Cube) -> bool {
        &&& coord_ok(c.x as int, c.y as int)
        &&& c.location_history@.len() == self.player.location_history@.len()
        &&& forall|k: int|
            0 <= k < c.location_history@.len() ==> coord_ok(
                (#[trigger] c.location_history@[k]).0 as int,
                c.location_history@[k].1 as int,
            )
    }

    /// Well-formedness: every position that the player and the cubes have had is a
    /// non-negative coordinate pair whose neighbours fit in `i32`, and every cube
    /// has one history entry per move of the player.
    pub open spec fn wf(self) -> bool {
        &&& 0 <= self.width
        &&& 0 <= self.height
        &&& coord_ok(self.player.x as int, self.player.y as int)
        &&& forall|k: int|
            0 <= k < self.player.location_history@.len() ==> coord_ok(
                (#[trigger] self.player.location_history@[k]).0 as int,
                self.player.location_history@[k].1 as int,
            )
        &&& forall|i: int| 0 <= i < self.cubes@.len() ==> self.cube_fits(#[trigger] self.cubes@[i])
    }

    /// Cube `i` can be pushed one step in `direction`: the cell lies on the board,
    /// and no other cube and no wall stands there.
    pub open spec fn cube_can_move(self, i: int, direction: char) -> bool {
        let t = step_target(self.cubes@[i].x as int, self.cubes@[i].y as int, direction);
        &&& self.in_bounds(t.0, t.1)
        &&& !(exists|j: int|
            0 <= j < self.cubes@.len() && j != i && #[trigger] cube_on(self.cubes@, j, t.0, t.1))
        &&& !self.wall_at(t.0, t.1)
    }

    /// The player cannot move in `direction`: the cell is off the board or a wall,
    /// or the first cube on it cannot be pushed on.
    pub open spec fn move_blocked(self, direction: char) -> bool {
        let t = step_target(self.player.x as int, self.player.y as int, direction);
        ||| !self.in_bounds(t.0, t.1)
        ||| self.wall_at(t.0, t.1)
        ||| exists|i: int|
            #[trigger] is_first_cube_on(self.cubes@, i, t.0, t.1) && !self.cube_can_move(
                i,
                direction,
            )
    }

    /// Name, size, buttons, finish and walls of `self` and `other` agree.
    pub open spec fn same_fixtures(self, other: GameMap) -> bool {
        &&& self.name@ == other.name@
        &&& self.width == other.width
        &&& self.height == other.height
        &&& self.buttons@ == other.buttons@
        &&& self.finish == other.finish
        &&& self.walls@ == other.walls@
    }

    /// `self` and `other` agree in everything the game reads: fixtures,
    /// positions and histories.
    pub open spec fn same_state(self, other: GameMap) -> bool {
        &&& self.same_fixtures(other)
        &&& self.player.x == other.player.x
        &&& self.player.y == other.player.y
        &&& self.player.location_history@ == other.player.location_history@
        &&& self.cubes@.len() == other.cubes@.len()
        &&& forall|i: int|
            0 <= i < self.cubes@.len() ==> {
                &&& (#[trigger] self.cubes@[i]).x == other.cubes@[i].x
                &&& self.cubes@[i].y == other.cubes@[i].y
                &&& self.cubes@[i].location_history@ == other.cubes@[i].location_history@
            }
    }

    /// `post` is `pre` after cube `i` moved one step in `direction`.
    pub open spec fn cube_pushed(pre: GameMap, post: GameMap, i: int, direction: char) -> bool {
        let t = step_target(pre.cubes@[i].x as int, pre.cubes@[i].y as int, direction);
        &&& post.same_fixtures(pre)
        &&& post.player == pre.player
        &&& post.cubes@.len() == pre.cubes@.len()
        &&& post.cubes@[i].x == t.0
        &&& post.cubes@[i].y == t.1
        &&& post.cubes@[i].location_history == pre.cubes@[i].location_history
        &&& forall|j: int| 0 <= j < pre.cubes@.len() && j != i ==> post.cubes@[j] == pre.cubes@[j]
    }

    /// `post` is `pre` after the player tried to move in `direction`: nothing
    /// changes when the move is blocked; otherwise the player steps on, the first
    /// cube on the target cell (if any) is pushed one step further, and every
    /// object records where it stood before the move.
    pub open spec fn player_moved(pre: GameMap, post: GameMap, direction: char) -> bool {
        let t = step_target(pre.player.x as int, pre.player.y as int, direction);
        if pre.move_blocked(direction) {
            post == pre
        } else {
            &&& post.same_fixtures(pre)
            &&& post.player.x == t.0
            &&& post.player.y == t.1
            &&& post.player.location_history@ == pre.player.location_history@.push(
                (pre.player.x, pre.player.y),
            )
            &&& post.cubes@.len() == pre.cubes@.len()
            &&& forall|i: int|
                0 <= i < pre.cubes@.len() ==> {
                    &&& (#[trigger] post.cubes@[i]).location_history@
                        == pre.cubes@[i].location_history@.push(
                        (pre.cubes@[i].x, pre.cubes@[i].y),
                    )
                    &&& if is_first_cube_on(pre.cubes@, i, t.0, t.1) {
                        let c = step_target(t.0, t.1, direction);
                        post.cubes@[i].x == c.0 && post.cubes@[i].y == c.1
                    } else {
                        post.cubes@[i].x == pre.cubes@[i].x && post.cubes@[i].y
                            == pre.cubes@[i].y
                    }
                }
        }
    }

    /// `post` is `pre` after an undo: the player and every cube with a non-empty
    /// history go back to the last recorded position, which leaves the history.
    pub open spec fn undone(pre: GameMap, post: GameMap) -> bool {
        let h = pre.player.location_history@;
        &&& post.same_fixtures(pre)
        &&& if h.len() > 0 {
            &&& post.player.x == h.last().0
            &&& post.player.y == h.last().1
            &&& post.player.location_history@ == h.drop_last()
        } else {
            &&& post.player.x == pre.player.x
            &&& post.player.y == pre.player.y
            &&& post.player.location_history@ == h
        }
        &&& post.cubes@.len() == pre.cubes@.len()
        &&& forall|i: int|
            0 <= i < pre.cubes@.len() ==> {
                let ch = pre.cubes@[i].location_history@;
                if ch.len() > 0 {
                    &&& (#[trigger] post.cubes@[i]).x == ch.last().0
                    &&& post.cubes@[i].y == ch.last().1
                    &&& post.cubes@[i].location_history@ == ch.drop_last()
                } else {
                    &&& post.cubes@[i].x == pre.cubes@[i].x
                    &&& post.cubes@[i].y == pre.cubes@[i].y
                    &&& post.cubes@[i].location_history@ == ch
                }
            }
    }

    /// The level has a finish tile.
    pub open spec fn spec_has_finish(self) -> bool {
        self.finish.x != 0 && self.finish.y != 0
    }

    /// The player stands on the finish, or there is none.
    pub open spec fn spec_finish_reached(self) -> bool {
        !self.spec_has_finish() || (self.player.x == self.finish.x && self.player.y
            == self.finish.y)
    }

    /// Every button has a cube on it.
    pub open spec fn spec_all_buttons_pressed(self) -> bool {
        forall|b: int|
            0 <= b < self.buttons@.len() ==> some_cube_on(
                self.cubes@,
                (#[trigger] self.buttons@[b]).x as int,
                self.buttons@[b].y as int,
            )
    }

    /// The player at `p` and the cubes at `cells` stand on the board, none on a
    /// wall, no cube under the player, and no two cubes on one cell.
    pub open spec fn layout_ok(self, p: (i32, i32), cells: Seq<(i32, i32)>) -> bool {
        &&& self.in_bounds(p.0 as int, p.1 as int)
        &&& !self.wall_at(p.0 as int, p.1 as int)
        &&& forall|i: int|
            0 <= i < cells.len() ==> #[trigger] cells[i] != p && !self.wall_at(
                cells[i].0 as int,
                cells[i].1 as int,
            ) && self.in_bounds(cells[i].0 as int, cells[i].1 as int)
        &&& forall|i: int, j: int|
            0 <= i < cells.len() && 0 <= j < cells.len() && i != j ==> #[trigger] cells[i]
                != #[trigger] cells[j]
    }

    /// The layout is sound now and was sound before each recorded move.
    pub open spec fn sound(self) -> bool {
        &&& self.layout_ok((self.player.x, self.player.y), cube_cells(self.cubes@))
        &&& forall|k: int|
            0 <= k < self.player.location_history@.len() ==> self.layout_ok(
                #[trigger] self.player.location_history@[k],
                cube_cells_before(self.cubes@, k),
            )
    }

    /// Whether the level is solved: the finish (if any) is reached and every
    /// button is pressed.
    pub fn all_objectives_met(&self) -> (r: bool)
        ensures
            r == (self.spec_finish_reached() && self.spec_all_buttons_pressed()),
    {
        self.finish_reached() && self.all_buttons_pressed()
    }

    /// Whether the player stands on the finish; true when the level has none.
    pub fn finish_reached(&self) -> (r: bool)
        ensures
            r == self.spec_finish_reached(),
    {
        if (self.player.x != self.finish.x || self.player.y != self.finish.y)
            && self.has_finish() {
            false
        } else {
            true
        }
    }

    /// Whether every button has a cube on it.
    pub fn all_buttons_pressed(&self) -> (r: bool)
        ensures
            r == self.spec_all_buttons_pressed(),
    {
        let mut b: usize = 0;
        while b < self.buttons.len()
            invariant
                b <= self.buttons@.len(),
                forall|k: int|
                    0 <= k < b ==> some_cube_on(
                        self.cubes@,
                        (#[trigger] self.buttons@[k]).x as int,
                        self.buttons@[k].y as int,
                    ),
            decreases self.buttons@.len() - b,
        {
            let bx = self.buttons[b].x;
            let by = self.buttons[b].y;
            match self.cube_index_at(bx, by) {
                Some(i) => {
                    assert(cube_on(self.cubes@, i as int, bx as int, by as int));
                },
                None => {
                    return false;
                },
            }
            b = b + 1;
        }
        true
    }

    /// Whether the level has buttons.
    pub fn has_buttons(&self) -> (r: bool)
        ensures
            r == (self.buttons@.len() > 0),
    {
        if self.buttons.len() > 0 {
            true
        } else {
            false
        }
    }

    /// Whether the level has cubes.
    pub fn has_cubes(&self) -> (r: bool)
        ensures
            r == (self.cubes@.len() > 0),
    {
        if self.cubes.len() > 0 {
            true
        } else {
            false
        }
    }

    /// Whether the level has a finish tile: a finish off the first row and column.
    pub fn has_finish(&self) -> (r: bool)
        ensures
            r == self.spec_has_finish(),
    {
        if self.finish.x != 0 && self.finish.y != 0 {
            true
        } else {
            false
        }
    }

    /// Whether a wall stands on `(x, y)`.
    pub fn has_wall_at(&self, x: i32, y: i32) -> (r: bool)
        ensures
            r == self.wall_at(x as int, y as int),
    {
        let mut i: usize = 0;
        while i < self.walls.len()
            invariant
                i <= self.walls@.len(),
                forall|j: int| 0 <= j < i ==> !(self.walls@[j].x == x && self.walls@[j].y == y),
            decreases self.walls@.len() - i,
        {
            if self.walls[i].x == x && self.walls[i].y == y {
                return true;
            }
            i = i + 1;
        }
        false
    }

    /// The index of the first cube on `(x, y)`, if any.
    pub fn cube_index_at(&self, x: i32, y: i32) -> (r: Option<usize>)
        ensures
            match r {
                Some(i) => is_first_cube_on(self.cubes@, i as int, x as int, y as int),
                None => !some_cube_on(self.cubes@, x as int, y as int),
            },
    {
        let mut i: usize = 0;
        while i < self.cubes.len()
            invariant
                i <= self.cubes@.len(),
                forall|j: int| 0 <= j < i ==> !#[trigger] cube_on(self.cubes@, j, x as int, y as int),
            decreases self.cubes@.len() - i,
        {
            if self.cubes[i].x == x && self.cubes[i].y == y {
                return Some(i);
            }
            i = i + 1;
        }
        None
    }

    /// Pushes cube `index` one step in `direction` if it can go there; returns
    /// whether it moved. The cube's history is left to the caller.
    #[verifier::loop_isolation(false)]
    pub fn try_move_cube(&mut self, index: usize, direction: char) -> (moved: bool)
        requires
            old(self).wf(),
            index < old(self).cubes@.len(),
        ensures
            moved == old(self).cube_can_move(index as int, direction),
            moved ==> GameMap::cube_pushed(*old(self), *final(self), index as int, direction),
            !moved ==> *final(self) == *old(self),
    {
        let cx = self.cubes[index].x;
        let cy = self.cubes[index].y;
        proof {
            assert(self.cube_fits(self.cubes@[index as int]));
        }
        let (new_x, new_y) = if direction == 'u' {
            (cx, cy - 1)
        } else if direction == 'l' {
            (cx - 1, cy)
        } else if direction == 'd' {
            (cx, cy + 1)
        } else if direction == 'r' {
            (cx + 1, cy)
        } else {
            (cx, cy)
        };
        if new_x < 0 || new_x >= self.width || new_y < 0 || new_y >= self.height {
            return false;
        }
        let mut i: usize = 0;
        while i < self.cubes.len()
            invariant
                i <= self.cubes@.len(),
                forall|j: int|
                    0 <= j < i && j != index ==> !#[trigger] cube_on(
                        self.cubes@,
                        j,
                        new_x as int,
                        new_y as int,
                    ),
            decreases self.cubes@.len() - i,
        {
            if i != index && self.cubes[i].x == new_x && self.cubes[i].y == new_y {
                assert(cube_on(self.cubes@, i as int, new_x as int, new_y as int));
                return false;
            }
            i = i + 1;
        }
        if self.has_wall_at(new_x, new_y) {
            return false;
        }
        self.cubes[index].x = new_x;
        self.cubes[index].y = new_y;
        true
    }
    /// Moves the player one step in `direction` ('u', 'd', 'l', 'r'), pushing the
    /// first cube on the target cell along, unless the move is blocked.
    #[verifier::loop_isolation(false)]
    pub fn try_move_player(&mut self, direction: char)
        requires
            old(self).wf(),
        ensures
            final(self).wf(),
            GameMap::player_moved(*old(self), *final(self), direction),
    {
        let px = self.player.x;
        let py = self.player.y;
        let mut cubes_old: Vec<(i32, i32)> = Vec::new();
        let mut i: usize = 0;
        while i < self.cubes.len()
            invariant
                i <= self.cubes@.len(),
                cubes_old@.len() == i,
                forall|j: int|
                    0 <= j < i ==> #[trigger] cubes_old@[j] == (self.cubes@[j].x, self.cubes@[j].y),
            decreases self.cubes@.len() - i,
        {
            cubes_old.push((self.cubes[i].x, self.cubes[i].y));
            i = i + 1;
        }
        let (new_x, new_y) = if direction == 'u' {
            (px, py - 1)
        } else if direction == 'd' {
            (px, py + 1)
        } else if direction == 'l' {
            (px - 1, py)
        } else if direction == 'r' {
            (px + 1, py)
        } else {
            (px, py)
        };
        if new_x < 0 || new_x >= self.width || new_y < 0 || new_y >= self.height {
            return;
        }
        if self.has_wall_at(new_x, new_y) {
            return;
        }
        let ghost pre = *self;
        match self.cube_index_at(new_x, new_y) {
            Some(index) => {
                proof {
                    assert forall|j: int|
                        is_first_cube_on(pre.cubes@, j, new_x as int, new_y as int) implies j
                        == index by {
                        if j < index {
                            assert(cube_on(pre.cubes@, j, new_x as int, new_y as int));
                        }
                        if j > index {
                            assert(cube_on(pre.cubes@, index as int, new_x as int, new_y as int));
                        }
                    }
                }
                if !self.try_move_cube(index, direction) {
                    return;
                }
            },
            None => {},
        }
        let ghost mid = *self;
        self.player.location_history.push((px, py));
        let mut i: usize = 0;
        while i < self.cubes.len()
            invariant
                i <= self.cubes@.len(),
                self.cubes@.len() == mid.cubes@.len(),
                self.same_fixtures(mid),
                self.player.x == px,
                self.player.y == py,
                self.player.location_history@ == pre.player.location_history@.push((px, py)),
                forall|j: int|
                    0 <= j < i ==> {
                        &&& (#[trigger] self.cubes@[j]).x == mid.cubes@[j].x
                        &&& self.cubes@[j].y == mid.cubes@[j].y
                        &&& self.cubes@[j].location_history@
                            == mid.cubes@[j].location_history@.push(cubes_old@[j])
                    },
                forall|j: int| i <= j < self.cubes@.len() ==> #[trigger] self.cubes@[j] == mid.cubes@[j],
            decreases self.cubes@.len() - i,
        {
            let old_cell = cubes_old[i];
            self.cubes[i].location_history.push(old_cell);
            i = i + 1;
        }
        self.player.x = new_x;
        self.player.y = new_y;
        proof {
            assert forall|j: int| 0 <= j < self.cubes@.len() implies self.cube_fits(
                #[trigger] self.cubes@[j],
            ) by {
                assert(pre.cube_fits(pre.cubes@[j]));
                let h = self.cubes@[j].location_history@;
                assert forall|k: int| 0 <= k < h.len() implies coord_ok(
                    (#[trigger] h[k]).0 as int,
                    h[k].1 as int,
                ) by {
                    if k < h.len() - 1 {
                        assert(h[k] == pre.cubes@[j].location_history@[k]);
                    }
                }
            }
        }
    }

    /// Takes back the last move: the player and every cube return to the position
    /// they last recorded.
    #[verifier::loop_isolation(false)]
    pub fn undo(&mut self)
        ensures
            GameMap::undone(*old(self), *final(self)),
            old(self).wf() ==> final(self).wf(),
    {
        let ghost pre = *self;
        match self.player.location_history.pop() {
            Some(cell) => {
                self.player.x = cell.0;
                self.player.y = cell.1;
            },
            None => {},
        }
        let ghost moved_player = self.player;
        let mut i: usize = 0;
        while i < self.cubes.len()
            invariant
                i <= self.cubes@.len(),
                self.player == moved_player,
                self.cubes@.len() == pre.cubes@.len(),
                self.same_fixtures(pre),
                forall|j: int|
                    0 <= j < i ==> {
                        let ch = pre.cubes@[j].location_history@;
                        if ch.len() > 0 {
                            &&& (#[trigger] self.cubes@[j]).x == ch.last().0
                            &&& self.cubes@[j].y == ch.last().1
                            &&& self.cubes@[j].location_history@ == ch.drop_last()
                        } else {
                            &&& self.cubes@[j].x == pre.cubes@[j].x
                            &&& self.cubes@[j].y == pre.cubes@[j].y
                            &&& self.cubes@[j].location_history@ == ch
                        }
                    },
                forall|j: int| i <= j < self.cubes@.len() ==> #[trigger] self.cubes@[j] == pre.cubes@[j],
            decreases self.cubes@.len() - i,
        {
            match self.cubes[i].location_history.pop() {
                Some(cell) => {
                    self.cubes[i].x = cell.0;
                    self.cubes[i].y = cell.1;
                },
                None => {},
            }
            i = i + 1;
        }
        proof {
            if pre.wf() {
                let h = pre.player.location_history@;
                if h.len() > 0 {
                    assert(coord_ok(h[h.len() - 1].0 as int, h[h.len() - 1].1 as int));
                }
                assert forall|j: int| 0 <= j < self.cubes@.len() implies self.cube_fits(
                    #[trigger] self.cubes@[j],
                ) by {
                    assert(pre.cube_fits(pre.cubes@[j]));
                    let ch = pre.cubes@[j].location_history@;
                    if ch.len() > 0 {
                        assert(coord_ok(ch[ch.len() - 1].0 as int, ch[ch.len() - 1].1 as int));
                    }
                    let nh = self.cubes@[j].location_history@;
                    assert forall|k: int| 0 <= k < nh.len() implies coord_ok(
                        (#[trigger] nh[k]).0 as int,
                        nh[k].1 as int,
                    ) by {
                        assert(nh[k] == ch[k]);
                    }
                }
            }
        }
    }
}

/// A copy of the positions `v`.
fn copy_cells(v: &Vec<(i32, i32)>) -> (r: Vec<(i32, i32)>)
    ensures
        r@ == v@,
{
    let mut r: Vec<(i32, i32)> = Vec::new();
    let mut i: usize = 0;
    while i < v.len()
        invariant
            i <= v@.len(),
            r@ == v@.take(i as int),
        decreases v@.len() - i,
    {
        r.push(v[i]);
        assert(r@ =~= v@.take(i as int + 1));
        i = i + 1;
    }
    assert(v@.take(v@.len() as int) =~= v@);
    r
}

impl GameMap {
    /// The number of moves made and not taken back.
    pub fn moves(&self) -> (n: usize)
        ensures
            n == self.player.location_history@.len(),
    {
        self.player.location_history.len()
    }

    /// A copy of the map, history included.
    pub fn copied(&self) -> (r: GameMap)
        ensures
            r.same_state(*self),
            self.wf() ==> r.wf(),
    {
        let mut cubes: Vec<Cube> = Vec::new();
        let mut i: usize = 0;
        while i < self.cubes.len()
            invariant
                i <= self.cubes@.len(),
                cubes@.len() == i,
                forall|j: int|
                    0 <= j < i ==> {
                        &&& (#[trigger] cubes@[j]).x == self.cubes@[j].x
                        &&& cubes@[j].y == self.cubes@[j].y
                        &&& cubes@[j].location_history@ == self.cubes@[j].location_history@
                    },
            decreases self.cubes@.len() - i,
        {
            let c = &self.cubes[i];
            cubes.push(Cube { x: c.x, y: c.y, location_history: copy_cells(&c.location_history) });
            i = i + 1;
        }
        let mut buttons: Vec<Button> = Vec::new();
        let mut i: usize = 0;
        while i < self.buttons.len()
            invariant
                i <= self.buttons@.len(),
                buttons@ == self.buttons@.take(i as int),
            decreases self.buttons@.len() - i,
        {
            buttons.push(Button { x: self.buttons[i].x, y: self.buttons[i].y });
            assert(buttons@ =~= self.buttons@.take(i as int + 1));
            i = i + 1;
        }
        let mut walls: Vec<Wall> = Vec::new();
        let mut i: usize = 0;
        while i < self.walls.len()
            invariant
                i <= self.walls@.len(),
                walls@ == self.walls@.take(i as int),
            decreases self.walls@.len() - i,
        {
            walls.push(Wall { x: self.walls[i].x, y: self.walls[i].y });
            assert(walls@ =~= self.walls@.take(i as int + 1));
            i = i + 1;
        }
        assert(self.buttons@.take(self.buttons@.len() as int) =~= self.buttons@);
        assert(self.walls@.take(self.walls@.len() as int) =~= self.walls@);
        let r = GameMap {
            name: self.name.clone(),
            width: self.width,
            height: self.height,
            player: Player {
                x: self.player.x,
                y: self.player.y,
                location_history: copy_cells(&self.player.location_history),
            },
            cubes,
            buttons,
            finish: Finish { x: self.finish.x, y: self.finish.y },
            walls,
        };
        proof {
            if self.wf() {
                assert forall|j: int| 0 <= j < r.cubes@.len() implies r.cube_fits(
                    #[trigger] r.cubes@[j],
                ) by {
                    assert(self.cube_fits(self.cubes@[j]));
                    let h = r.cubes@[j].location_history@;
                    assert forall|k: int| 0 <= k < h.len() implies coord_ok(
                        (#[trigger] h[k]).0 as int,
                        h[k].1 as int,
                    ) by {
                        assert(h[k] == self.cubes@[j].location_history@[k]);
                    }
                }
            }
        }
        r
    }
}

} // verus!
