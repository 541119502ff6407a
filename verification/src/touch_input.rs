use vstd::prelude::*;

verus! {

/// How far, in screen pixels along one axis, a touch must travel from where it
/// was anchored to count as a swipe.
pub const SWIPE_THRESHOLD: i32 = 30;

/// The direction of a swipe on the touch screen.
#[derive(Clone, Copy, PartialEq, Eq, Debug, Structural)]
pub enum SwipeDirection {
    Up,
    Down,
    Left,
    Right,
}

impl SwipeDirection {
    /// The move letter of the direction, as the game's moves take it.
    pub open spec fn spec_as_char(self) -> char {
        match self {
            SwipeDirection::Up => 'u',
            SwipeDirection::Down => 'd',
            SwipeDirection::Left => 'l',
            SwipeDirection::Right => 'r',
        }
    }

    /// The move letter of the direction: 'u', 'd', 'l' or 'r'.
    pub fn as_char(self) -> (c: char)
        ensures
            c == self.spec_as_char(),
    {
        match self {
            SwipeDirection::Up => 'u',
            SwipeDirection::Down => 'd',
            SwipeDirection::Left => 'l',
            SwipeDirection::Right => 'r',
        }
    }
}

/// The absolute value of `v`.
pub open spec fn abs(v: int) -> int {
    if v < 0 {
        -v
    } else {
        v
    }
}

/// The swipe, if any, of a touch that moved by `(dx, dy)` from its anchor: none
/// while it stays under the threshold on both axes; otherwise along the axis it
/// moved further on, a tie going to the vertical one.
pub open spec fn swipe_of(dx: int, dy: int) -> Option<SwipeDirection> {
    if abs(dx) < SWIPE_THRESHOLD && abs(dy) < SWIPE_THRESHOLD {
        None
    } else if abs(dx) > abs(dy) {
        if dx > 0 {
            Some(SwipeDirection::Right)
        } else {
            Some(SwipeDirection::Left)
        }
    } else {
        if dy > 0 {
            Some(SwipeDirection::Down)
        } else {
            Some(SwipeDirection::Up)
        }
    }
}

/// Turns the touch positions of successive frames into swipes.
pub struct TouchInputHandler {
    /// Where the current touch was put down, or where its last swipe ended.
    pub anchor: Option<(i32, i32)>,
}

impl TouchInputHandler {
    /// The anchor, if any, is a touch-screen position.
    pub open spec fn wf(self) -> bool {
        match self.anchor {
            Some((x, y)) => 0 <= x <= u16::MAX && 0 <= y <= u16::MAX,
            None => true,
        }
    }

    /// A handler with no touch in progress.
    pub fn new() -> (h: Self)
        ensures
            h.anchor is None,
            h.wf(),
    {
        Self { anchor: None }
    }

    /// Takes this frame's touch: `None` when the screen is not touched, else the
    /// touched position. Lifting the finger forgets the anchor; the first
    /// frame of a touch anchors it; later frames report a swipe once the touch
    /// has moved far enough, and the swipe's end becomes the new anchor.
    pub fn update(&mut self, touch: Option<(u16, u16)>) -> (r: Option<SwipeDirection>)
        requires
            old(self).wf(),
        ensures
            final(self).wf(),
            match touch {
                None => r is None && final(self).anchor is None,
                Some((tx, ty)) => match old(self).anchor {
                    None => r is None && final(self).anchor == Some((tx as i32, ty as i32)),
                    Some((ax, ay)) => {
                        &&& r == swipe_of(tx - ax, ty - ay)
                        &&& final(self).anchor == if r is Some {
                            Some((tx as i32, ty as i32))
                        } else {
                            old(self).anchor
                        }
                    },
                },
            },
    {
        let (raw_x, raw_y) = match touch {
            None => {
                self.anchor = None;
                return None;
            },
            Some(pos) => pos,
        };
        let x = raw_x as i32;
        let y = raw_y as i32;
        let (anchor_x, anchor_y) = match self.anchor {
            Some(pos) => pos,
            None => {
                self.anchor = Some((x, y));
                return None;
            },
        };
        let dx = x - anchor_x;
        let dy = y - anchor_y;
        let adx = if dx < 0 {
            -dx
        } else {
            dx
        };
        let ady = if dy < 0 {
            -dy
        } else {
            dy
        };
        if adx < SWIPE_THRESHOLD && ady < SWIPE_THRESHOLD {
            return None;
        }
        let direction = if adx > ady {
            if dx > 0 {
                SwipeDirection::Right
            } else {
                SwipeDirection::Left
            }
        } else {
            if dy > 0 {
                SwipeDirection::Down
            } else {
                SwipeDirection::Up
            }
        };
        self.anchor = Some((x, y));
        Some(direction)
    }
}

} // verus!
