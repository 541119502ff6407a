use vstd::prelude::*;
use crate::game::GameMap;

verus! {

/// What the player asks of the game.
#[derive(Clone, Copy, PartialEq, Eq, Debug, Structural)]
pub enum Command {
    Up,
    Down,
    Left,
    Right,
    Undo,
    Reset,
    NextLevel,
    Quit,
}

/// How the game answers a command.
#[derive(Clone, Copy, PartialEq, Eq, Debug, Structural)]
pub enum Reaction {
    /// The state changed or the level was reloaded: draw it again.
    Redraw,
    /// The command does not apply now; nothing changed.
    Ignore,
    /// Leave the game.
    Quit,
}

/// The move letter of a movement command; any other command gives ' '.
pub open spec fn command_direction(cmd: Command) -> char {
    match cmd {
        Command::Up => 'u',
        Command::Down => 'd',
        Command::Left => 'l',
        Command::Right => 'r',
        _ => ' ',
    }
}

/// A game in progress over a set of levels.
pub struct Session {
    /// The levels as loaded.
    pub levels: Vec<GameMap>,
    /// The position of the current level among `levels`.
    pub index: usize,
    /// The current level, in play.
    pub current: GameMap,
}

impl Session {
    /// There is a level, the index points at one, and every map is well formed.
    pub open spec fn wf(self) -> bool {
        &&& self.levels@.len() > 0
        &&& self.index < self.levels@.len()
        &&& forall|i: int| 0 <= i < self.levels@.len() ==> (#[trigger] self.levels@[i]).wf()
        &&& self.current.wf()
    }

    /// The current level is solved.
    pub open spec fn solved(self) -> bool {
        self.current.spec_finish_reached() && self.current.spec_all_buttons_pressed()
    }

    /// The level after the current one, the first after the last.
    pub open spec fn next_index(self) -> int {
        (self.index + 1) % (self.levels@.len() as int)
    }

    /// `post` and `r` are what `handle` makes of `pre` and `cmd`.
    pub open spec fn handled(pre: Session, post: Session, cmd: Command, r: Reaction) -> bool {
        match cmd {
            Command::Up | Command::Down | Command::Left | Command::Right => if pre.solved() {
                r == Reaction::Ignore && post == pre
            } else {
                &&& r == Reaction::Redraw
                &&& post.index == pre.index
                &&& GameMap::player_moved(
                    pre.current,
                    post.current,
                    command_direction(cmd),
                )
            },
            Command::Undo => if pre.solved() {
                r == Reaction::Ignore && post == pre
            } else {
                &&& r == Reaction::Redraw
                &&& post.index == pre.index
                &&& GameMap::undone(pre.current, post.current)
            },
            Command::Reset => {
                &&& r == Reaction::Redraw
                &&& post.index == pre.index
                &&& post.current.same_state(pre.levels@[pre.index as int])
            },
            Command::NextLevel => if pre.solved() {
                &&& r == Reaction::Redraw
                &&& post.index == pre.next_index()
                &&& post.current.same_state(pre.levels@[post.index as int])
            } else {
                r == Reaction::Ignore && post == pre
            },
            Command::Quit => r == Reaction::Quit && post == pre,
        }
    }

    /// `post` is `pre` after `skip_goalless`, which answered `skipped`: a level
    /// without cubes and without a finish gives way to the next one.
    pub open spec fn skipped(pre: Session, post: Session, skipped: bool) -> bool {
        &&& skipped == (pre.current.cubes@.len() == 0 && !pre.current.spec_has_finish())
        &&& skipped ==> post.index == pre.next_index()
        &&& skipped ==> post.current.same_state(pre.levels@[post.index as int])
        &&& !skipped ==> post == pre
    }

    /// A game that starts at the first of `levels`.
    pub fn new(levels: Vec<GameMap>) -> (s: Session)
        requires
            levels@.len() > 0,
            forall|i: int| 0 <= i < levels@.len() ==> (#[trigger] levels@[i]).wf(),
        ensures
            s.wf(),
            s.levels@ == levels@,
            s.index == 0,
            s.current.same_state(levels@[0]),
    {
        let current = levels[0].copied();
        Session { levels, index: 0, current }
    }

    /// Whether the current level is the last one.
    pub fn on_last_level(&self) -> (r: bool)
        requires
            self.wf(),
        ensures
            r == (self.index == self.levels@.len() - 1),
    {
        self.index >= self.levels.len() - 1
    }

    /// Whether the current level is solved.
    pub fn is_solved(&self) -> (r: bool)
        ensures
            r == self.solved(),
    {
        self.current.all_objectives_met()
    }

    /// Moves on to the next level (the first after the last) and loads it.
    fn advance(&mut self)
        requires
            old(self).wf(),
        ensures
            final(self).wf(),
            final(self).levels == old(self).levels,
            final(self).index == old(self).next_index(),
            final(self).current.same_state(old(self).levels@[final(self).index as int]),
    {
        let n = self.levels.len();
        let mut next = self.index + 1;
        if next >= n {
            next = 0;
            assert((self.index + 1) % (n as int) == 0) by (nonlinear_arith)
                requires
                    self.index + 1 == n,
                    n > 0,
            ;
        } else {
            assert((self.index + 1) % (n as int) == self.index + 1) by (nonlinear_arith)
                requires
                    self.index + 1 < n,
                    self.index + 1 >= 0,
            ;
        }
        self.index = next;
        assert(self.levels@[next as int].wf());
        self.current = self.levels[next].copied();
    }

    /// Carries out `cmd`. Moves and undo apply only while the level is not
    /// solved, and going on to the next level only once it is; a reset reloads
    /// the current level as it was loaded, and quitting changes nothing.
    pub fn handle(&mut self, cmd: Command) -> (r: Reaction)
        requires
            old(self).wf(),
        ensures
            final(self).wf(),
            final(self).levels == old(self).levels,
            Session::handled(*old(self), *final(self), cmd, r),
    {
        let solved = self.current.all_objectives_met();
        match cmd {
            Command::Up | Command::Down | Command::Left | Command::Right => {
                if solved {
                    return Reaction::Ignore;
                }
                let direction = match cmd {
                    Command::Up => 'u',
                    Command::Down => 'd',
                    Command::Left => 'l',
                    _ => 'r',
                };
                self.current.try_move_player(direction);
                Reaction::Redraw
            },
            Command::Undo => {
                if solved {
                    return Reaction::Ignore;
                }
                self.current.undo();
                Reaction::Redraw
            },
            Command::Reset => {
                assert(self.levels@[self.index as int].wf());
                self.current = self.levels[self.index].copied();
                Reaction::Redraw
            },
            Command::NextLevel => {
                if !solved {
                    return Reaction::Ignore;
                }
                self.advance();
                Reaction::Redraw
            },
            Command::Quit => Reaction::Quit,
        }
    }

    /// Skips a level that has neither cubes nor a finish, which leaves nothing
    /// to do: the game moves on to the next level. Returns whether it skipped.
    pub fn skip_goalless(&mut self) -> (skipped: bool)
        requires
            old(self).wf(),
        ensures
            final(self).wf(),
            final(self).levels == old(self).levels,
            Session::skipped(*old(self), *final(self), skipped),
    {
        if !(self.current.has_cubes() || self.current.has_finish()) {
            self.advance();
            true
        } else {
            false
        }
    }
}

} // verus!
