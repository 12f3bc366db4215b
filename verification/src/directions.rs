use vstd::prelude::*;

verus! {

/// One of the four directions a player can act in.
#[derive(Clone, Copy, Debug, PartialEq, Eq, Structural)]
pub enum Direction {
    Right,
    Up,
    Left,
    Down,
}

/// The four directions in the order the interface lays out its direction buttons.
pub open spec fn spec_all_directions() -> Seq<Direction> {
    seq![Direction::Right, Direction::Up, Direction::Left, Direction::Down]
}

/// All four directions, right, up, left, down.
pub fn all_directions() -> (res: Vec<Direction>)
    ensures
        res@ == spec_all_directions(),
{
    let mut v = Vec::new();
    v.push(Direction::Right);
    v.push(Direction::Up);
    v.push(Direction::Left);
    v.push(Direction::Down);
    v
}

/// A grid coordinate of the dungeon.
#[derive(Clone, Copy, Debug, PartialEq, Eq, Structural)]
pub struct Coord {
    pub x: i32,
    pub y: i32,
}

} // verus!
