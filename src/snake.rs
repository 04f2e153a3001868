//! The snake: how its head steps, how its body follows, and how it turns.

use vstd::prelude::*;

use crate::components::{is_vertical, Direction, Position, SnakeBody, SnakeHead};

verus! {

/// `v`, held within the range of `i32`.
pub open spec fn clamp_i32(v: int) -> i32 {
    if v > i32::MAX {
        i32::MAX
    } else if v < i32::MIN {
        i32::MIN
    } else {
        v as i32
    }
}

/// Where the head goes from `p` along `d`. Where the snake may pass the
/// arena's edge it comes back on the opposite side; elsewhere the coordinate
/// runs past the edge, onto the exterior wall. A coordinate stays at the
/// bound of `i32` rather than pass it.
pub open spec fn next_position(
    p: Position,
    d: Direction,
    width: u32,
    height: u32,
    can_pass: bool,
) -> Position {
    match d {
        Direction::Up => Position {
            x: p.x,
            y: if can_pass && p.y + 1 == height { 0 } else { clamp_i32(p.y + 1) },
        },
        Direction::Down => Position {
            x: p.x,
            y: if can_pass && p.y - 1 < 0 { (height - 1) as i32 } else { clamp_i32(p.y - 1) },
        },
        Direction::Left => Position {
            x: if can_pass && p.x - 1 < 0 { (width - 1) as i32 } else { clamp_i32(p.x - 1) },
            y: p.y,
        },
        Direction::Right => Position {
            x: if can_pass && p.x + 1 == width { 0 } else { clamp_i32(p.x + 1) },
            y: p.y,
        },
    }
}

/// The heading after asking for `requested`: only a quarter turn is taken, a
/// request along the current axis leaves the heading as it is.
pub open spec fn turned(current: Direction, requested: Direction) -> Direction {
    if is_vertical(current) != is_vertical(requested) {
        requested
    } else {
        current
    }
}

pub open spec fn segment_positions(body: Seq<SnakeBody>) -> Seq<Position> {
    body.map_values(|s: SnakeBody| s.position)
}

/// The front segment, and it alone, is marked as the tail.
pub open spec fn tail_marked(body: Seq<SnakeBody>) -> bool {
    &&& body.len() >= 1
    &&& body[0].is_tail
    &&& forall|i: int| 1 <= i < body.len() ==> !(#[trigger] body[i]).is_tail
}

/// A wrapping arena leaves `x = width - 1` to the right for `x = 0`; a walled
/// one moves the head onto `x = width`, where the exterior wall stands.
pub proof fn lemma_boundary_wrap(p: Position, width: u32, height: u32)
    requires
        1 <= width <= i32::MAX,
        p.x == width - 1,
    ensures
        next_position(p, Direction::Right, width, height, true).x == 0,
        next_position(p, Direction::Right, width, height, false).x == width,
        next_position(p, Direction::Right, width, height, true).y == p.y,
        next_position(p, Direction::Right, width, height, false).y == p.y,
{
}

pub fn is_same_position(position: &Position, other_position: &Position) -> (r: bool)
    ensures
        r == (*position == *other_position),
{
    position.x == other_position.x && position.y == other_position.y
}

/// One step of the head from `position` along `direction`.
pub fn update_snake_head_position(
    direction: Direction,
    position: Position,
    width: u32,
    height: u32,
    can_pass: bool,
) -> (r: Position)
    requires
        width <= i32::MAX,
        height <= i32::MAX,
    ensures
        r == next_position(position, direction, width, height, can_pass),
{
    match direction {
        Direction::Up => {
            let y = if position.y == i32::MAX { i32::MAX } else { position.y + 1 };
            if can_pass && position.y != i32::MAX && y as i64 == height as i64 {
                Position { x: position.x, y: 0 }
            } else {
                Position { x: position.x, y }
            }
        },
        Direction::Down => {
            if can_pass && position.y <= 0 {
                Position { x: position.x, y: (height as i64 - 1) as i32 }
            } else {
                let y = if position.y == i32::MIN { i32::MIN } else { position.y - 1 };
                Position { x: position.x, y }
            }
        },
        Direction::Left => {
            if can_pass && position.x <= 0 {
                Position { x: (width as i64 - 1) as i32, y: position.y }
            } else {
                let x = if position.x == i32::MIN { i32::MIN } else { position.x - 1 };
                Position { x, y: position.y }
            }
        },
        Direction::Right => {
            let x = if position.x == i32::MAX { i32::MAX } else { position.x + 1 };
            if can_pass && position.x != i32::MAX && x as i64 == width as i64 {
                Position { x: 0, y: position.y }
            } else {
                Position { x, y: position.y }
            }
        },
    }
}

/// The heading after a request for `requested`.
pub fn edit_snake_direction(direction: Direction, requested: Direction) -> (r: Direction)
    ensures
        r == turned(direction, requested),
{
    let vertical = direction == Direction::Up || direction == Direction::Down;
    let requested_vertical = requested == Direction::Up || requested == Direction::Down;
    if vertical != requested_vertical {
        requested
    } else {
        direction
    }
}

impl SnakeHead {
    /// Appends a segment at `previous`, the tile the head has just left.
    pub fn add_new_body_part(&mut self, previous: Position)
        ensures
            final(self).moved == old(self).moved,
            final(self).ate == old(self).ate,
            final(self).invincible == old(self).invincible,
            final(self).body_parts@.len() == old(self).body_parts@.len() + 1,
            forall|i: int|
                0 <= i < old(self).body_parts@.len() ==> final(self).body_parts@[i]
                    == old(self).body_parts@[i],
            final(self).body_parts@.last().position == previous,
            final(self).body_parts@.last().is_tail == (old(self).body_parts@.len() == 1
                && !old(self).ate),
    {
        let is_tail = self.body_parts.len() == 1 && !self.ate;
        let segment = SnakeBody { is_tail, id: uuid::Uuid::new_v4(), position: previous };
        self.body_parts.push_back(segment);
    }

    /// Drops the oldest segment and marks the next one as the tail.
    pub fn remove_body_part(&mut self)
        requires
            old(self).body_parts@.len() >= 2,
        ensures
            final(self).moved == old(self).moved,
            final(self).ate == old(self).ate,
            final(self).invincible == old(self).invincible,
            final(self).body_parts@.len() == old(self).body_parts@.len() - 1,
            final(self).body_parts@[0].is_tail,
            final(self).body_parts@[0].position == old(self).body_parts@[1].position,
            final(self).body_parts@[0].id == old(self).body_parts@[1].id,
            forall|i: int|
                1 <= i < final(self).body_parts@.len() ==> final(self).body_parts@[i]
                    == old(self).body_parts@[i + 1],
    {
        let _ = self.body_parts.pop_front();
        let front = self.body_parts.pop_front();
        match front {
            Some(segment) => {
                let new_tail = SnakeBody { is_tail: true, id: segment.id, position: segment.position };
                self.body_parts.push_front(new_tail);
            },
            None => {},
        }
    }
}

} // verus!
