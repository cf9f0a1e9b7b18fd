use vstd::prelude::*;

verus! {

#[derive(Debug, Clone, Copy, PartialEq, Eq, Structural)]
pub enum Motion {
    Up,
    Down,
    Left,
    Right,
    RightEnd,
    First,
    FirstOccupied,
    Last,
    High,
    Middle,
    Low,
    Bracket,
}

} // verus!
