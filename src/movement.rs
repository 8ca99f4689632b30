use vstd::prelude::*;

verus! {

/// The head's movement command for one tick.
#[derive(Clone, Copy, Debug, PartialEq, Eq, Structural)]
pub enum SnakeMoveDirection {
    Forward,
    Backward,
    Stop,
}

/// The signed unit that scales the head's speed: forward is `+1`,
/// backward is `-1`, and stopping is `0`.
pub open spec fn ratio_of(direction: SnakeMoveDirection) -> int {
    match direction {
        SnakeMoveDirection::Forward => 1,
        SnakeMoveDirection::Backward => -1,
        SnakeMoveDirection::Stop => 0,
    }
}

impl SnakeMoveDirection {
    /// The factor the movement speed is multiplied by for this command.
    pub fn movement_ratio(&self) -> (r: i8)
        ensures
            r as int == ratio_of(*self),
            -1 <= r <= 1,
            (r == 0) <==> (*self == SnakeMoveDirection::Stop),
    {
        match self {
            SnakeMoveDirection::Forward => 1,
            SnakeMoveDirection::Backward => -1,
            SnakeMoveDirection::Stop => 0,
        }
    }
}

} // verus!
