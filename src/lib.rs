//! Tick-based simulation of a grid snake game: the snake's movement and
//! growth, the food lifecycle and its placement, collisions and the end of a
//! round, and the timed invincibility granted by bonus food.

pub mod timer;
pub mod components;
mod random;
pub mod wall;
pub mod snake;
pub mod bonus;
pub mod game;
pub mod food;
pub mod menu;
