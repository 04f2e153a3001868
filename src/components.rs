use std::collections::VecDeque;

use vstd::prelude::*;

use crate::timer::{Timer, TimerMode};

verus! {

/// A tile of the arena, by column and row.
#[derive(Clone, Copy, Debug, PartialEq, Eq, Hash, Structural)]
pub struct Position {
    pub x: i32,
    pub y: i32,
}

/// The snake's heading.
#[derive(Clone, Copy, Debug, PartialEq, Eq, Structural)]
pub enum Direction {
    Up,
    Down,
    Left,
    Right,
}

/// Whether a heading moves along the vertical axis.
pub open spec fn is_vertical(d: Direction) -> bool {
    d == Direction::Up || d == Direction::Down
}

/// The round's configuration: which walls stand (see `crate::wall`) and the
/// factor applied to every score.
#[derive(Clone, Copy, Debug, PartialEq, Eq, Structural)]
pub struct GameType {
    pub wall_type: usize,
    pub multiplier: u32,
}

#[derive(Clone, Copy, Debug, PartialEq, Eq, Structural)]
pub enum FoodType {
    Simple,
    Gold,
    Bonus,
}

#[derive(Clone, Copy, Debug, PartialEq, Eq, Structural)]
pub struct Food(pub FoodType);

/// How long a piece of food stays on the arena.
#[derive(Clone, Copy, Debug)]
pub struct FoodTimer(pub Timer);

/// Lifetime of simple food, in microseconds.
pub const SIMPLE_FOOD_LIFETIME: u64 = 8_000_000;

/// Lifetime of gold and bonus food, in microseconds.
pub const SPECIAL_FOOD_LIFETIME: u64 = 6_000_000;

impl Default for FoodTimer {
    fn default() -> (r: FoodTimer)
        ensures
            r.0 == Timer::spec_new(SIMPLE_FOOD_LIFETIME, TimerMode::Once),
    {
        FoodTimer(Timer::new(SIMPLE_FOOD_LIFETIME, TimerMode::Once))
    }
}

/// Marks a wall tile that ends the round when the head runs into it.
#[derive(Clone, Copy, Debug, PartialEq, Eq, Structural)]
pub struct Collision;

/// One tile of the obstacle layout.
#[derive(Clone, Copy, Debug, PartialEq, Eq, Structural)]
pub struct Wall {
    pub position: Position,
    pub collision: Option<Collision>,
}

/// One segment of the snake's body.
pub struct SnakeBody {
    pub is_tail: bool,
    pub id: uuid::Uuid,
    pub position: Position,
}

/// The snake's state besides its head position and heading.
///
/// `body_parts` runs from the tail (front) to the segment next to the head
/// (back).
pub struct SnakeHead {
    pub moved: bool,
    pub ate: bool,
    pub invincible: bool,
    pub body_parts: VecDeque<SnakeBody>,
}

} // verus!
