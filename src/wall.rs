//! The arena's geometry and its obstacle layout.
//!
//! The wall type of a round is one of the constants below; any other value is
//! played as a round without walls, except that it counts as a round with
//! obstacles where bonus food is concerned (see `is_game_with_wall`).

use vstd::prelude::*;

use crate::components::{Collision, GameType, Position, Wall};

verus! {

pub const WITHOUT_WALL: usize = 0;

pub const EXTERIOR_WALL: usize = 1;

pub const VERTICAL_WALL: usize = 2;

pub const HORIZONTAL_WALL: usize = 3;

pub const VERTICAL_AND_HORIZONTAL_WALL: usize = 4;

/// Default number of playable columns.
pub const ARENA_WIDTH: u32 = 20;

/// Default number of playable rows.
pub const ARENA_HEIGHT: u32 = 20;

pub open spec fn has_vertical_wall(wall_type: usize) -> bool {
    wall_type == VERTICAL_WALL || wall_type == VERTICAL_AND_HORIZONTAL_WALL
}

pub open spec fn has_horizontal_wall(wall_type: usize) -> bool {
    wall_type == HORIZONTAL_WALL || wall_type == VERTICAL_AND_HORIZONTAL_WALL
}

/// Whether the exterior border stops the snake; otherwise it wraps around.
pub open spec fn has_solid_border(wall_type: usize) -> bool {
    wall_type == EXTERIOR_WALL
}

pub open spec fn middle_of(size: u32) -> u32 {
    if size % 2 == 0 {
        ((size + 1) / 2) as u32
    } else {
        size / 2
    }
}

pub open spec fn in_grid(p: Position, width: u32, height: u32) -> bool {
    0 <= p.x < width && 0 <= p.y < height
}

/// A tile of an interior wall: the middle column, the middle row, or both.
pub open spec fn on_interior_wall(p: Position, wall_type: usize, width: u32, height: u32) -> bool {
    &&& in_grid(p, width, height)
    &&& (has_vertical_wall(wall_type) && p.x == middle_of(width)) || (has_horizontal_wall(
        wall_type,
    ) && p.y == middle_of(height))
}

/// A tile of the ring just outside the grid, corners included.
pub open spec fn on_border(p: Position, width: u32, height: u32) -> bool {
    ||| (p.x == -1 || p.x == width) && -1 <= p.y <= height
    ||| (p.y == -1 || p.y == height) && -1 <= p.x <= width
}

/// A wall of the layout that `wall_type` gives to a grid of that size.
pub open spec fn is_layout_wall(w: Wall, wall_type: usize, width: u32, height: u32) -> bool {
    ||| on_border(w.position, width, height) && (w.collision.is_some() <==> has_solid_border(
        wall_type,
    ))
    ||| on_interior_wall(w.position, wall_type, width, height) && w.collision.is_some()
}

pub open spec fn has_wall_at(walls: Seq<Wall>, p: Position) -> bool {
    exists|i: int| 0 <= i < walls.len() && #[trigger] walls[i].position == p
}

pub open spec fn has_solid_wall_at(walls: Seq<Wall>, p: Position) -> bool {
    exists|i: int|
        0 <= i < walls.len() && #[trigger] walls[i].position == p && walls[i].collision.is_some()
}

/// The walls are the whole layout of `wall_type`, and nothing else.
pub open spec fn is_layout(walls: Seq<Wall>, wall_type: usize, width: u32, height: u32) -> bool {
    &&& forall|i: int| 0 <= i < walls.len() ==> is_layout_wall(#[trigger] walls[i], wall_type, width, height)
    &&& forall|p: Position|
        on_border(p, width, height) || on_interior_wall(p, wall_type, width, height)
            ==> #[trigger] has_wall_at(walls, p)
}

/// Along which axis a line of walls runs.
#[derive(Clone, Copy, Debug, PartialEq, Eq, Structural)]
pub enum Axis {
    Vertical,
    Horizontal,
}

/// What a filtered sequence contains.
pub proof fn lemma_filter_contains_iff<A>(s: Seq<A>, pred: spec_fn(A) -> bool, x: A)
    ensures
        s.filter(pred).contains(x) <==> s.contains(x) && pred(x),
{
    broadcast use vstd::seq_lib::group_filter_ensures;

    if s.filter(pred).contains(x) {
        s.lemma_filter_contains_rev(pred, x);
        let i = choose|i: int| 0 <= i < s.filter(pred).len() && s.filter(pred)[i] == x;
        s.lemma_filter_pred(pred, i);
    }
    if s.contains(x) && pred(x) {
        let i = choose|i: int| 0 <= i < s.len() && s[i] == x;
        s.lemma_filter_contains(pred, i);
    }
}

/// Filtering keeps a sequence free of duplicates.
pub proof fn lemma_filter_no_duplicates<A>(s: Seq<A>, pred: spec_fn(A) -> bool)
    requires
        s.no_duplicates(),
    ensures
        s.filter(pred).no_duplicates(),
    decreases s.len(),
{
    reveal(Seq::filter);
    if s.len() > 0 {
        let rest = s.drop_last();
        assert(rest.no_duplicates()) by {
            assert forall|i: int, j: int|
                0 <= i < rest.len() && 0 <= j < rest.len() && i != j implies rest[i] != rest[j] by {
                assert(rest[i] == s[i] && rest[j] == s[j]);
            }
        }
        lemma_filter_no_duplicates(rest, pred);
        if pred(s.last()) {
            if rest.filter(pred).contains(s.last()) {
                rest.lemma_filter_contains_rev(pred, s.last());
                let k = choose|k: int| 0 <= k < rest.len() && rest[k] == s.last();
                assert(s[k] == s[s.len() - 1]);
            }
            let f = rest.filter(pred);
            assert forall|i: int, j: int|
                0 <= i < f.push(s.last()).len() && 0 <= j < f.push(s.last()).len() && i != j
                    implies f.push(s.last())[i] != f.push(s.last())[j] by {
                if i == f.len() {
                    assert(!f.contains(s.last()));
                    assert(f[j] == f.push(s.last())[j]);
                } else if j == f.len() {
                    assert(!f.contains(s.last()));
                    assert(f[i] == f.push(s.last())[i]);
                }
            }
        }
    }
}

pub proof fn lemma_push_keeps_walls(walls: Seq<Wall>, w: Wall)
    ensures
        forall|p: Position| has_wall_at(walls, p) ==> has_wall_at(walls.push(w), p),
        has_wall_at(walls.push(w), w.position),
{
    assert forall|p: Position| has_wall_at(walls, p) implies has_wall_at(walls.push(w), p) by {
        let k = choose|k: int| 0 <= k < walls.len() && #[trigger] walls[k].position == p;
        assert(walls.push(w)[k].position == p);
    }
    assert(walls.push(w)[walls.len() as int].position == w.position);
}

/// Walls added after `old`: `old` stays in front, every new wall belongs to
/// the layout.
pub open spec fn extends_layout(
    new: Seq<Wall>,
    old: Seq<Wall>,
    wall_type: usize,
    width: u32,
    height: u32,
) -> bool {
    &&& old.len() <= new.len()
    &&& forall|i: int| 0 <= i < old.len() ==> new[i] == old[i]
    &&& forall|i: int|
        old.len() <= i < new.len() ==> is_layout_wall(#[trigger] new[i], wall_type, width, height)
}

/// Whether a wall of the exterior ring stops the snake in this round.
pub open spec fn border_collision(wall_type: usize) -> Option<Collision> {
    if has_solid_border(wall_type) {
        Some(Collision)
    } else {
        None
    }
}

/// The `k`-th wall of one side pair of the ring: for each row (or column) in
/// turn, the left (top) tile and then the right (bottom) one.
pub open spec fn side_wall(axe: Axis, wall_type: usize, width: u32, height: u32, k: int) -> Wall {
    let i = (k / 2) as i32;
    let position = if axe == Axis::Vertical {
        if k % 2 == 0 {
            Position { x: -1i32, y: i }
        } else {
            Position { x: width as i32, y: i }
        }
    } else {
        if k % 2 == 0 {
            Position { x: i, y: height as i32 }
        } else {
            Position { x: i, y: -1i32 }
        }
    };
    Wall { position, collision: border_collision(wall_type) }
}

/// The walls of one side pair of the ring, in the order they are added.
pub open spec fn side_walls(axe: Axis, wall_type: usize, width: u32, height: u32) -> Seq<Wall> {
    let len = if axe == Axis::Vertical { height } else { width };
    Seq::new((2 * len) as nat, |k: int| side_wall(axe, wall_type, width, height, k))
}

/// The four corners of the ring.
pub open spec fn corner_walls(wall_type: usize, width: u32, height: u32) -> Seq<Wall> {
    let c = border_collision(wall_type);
    seq![
        Wall { position: Position { x: -1i32, y: -1i32 }, collision: c },
        Wall { position: Position { x: -1i32, y: height as i32 }, collision: c },
        Wall { position: Position { x: width as i32, y: -1i32 }, collision: c },
        Wall { position: Position { x: width as i32, y: height as i32 }, collision: c },
    ]
}

/// The whole exterior ring, in the order it is added.
pub open spec fn exterior_walls(wall_type: usize, width: u32, height: u32) -> Seq<Wall> {
    side_walls(Axis::Vertical, wall_type, width, height) + side_walls(
        Axis::Horizontal,
        wall_type,
        width,
        height,
    ) + corner_walls(wall_type, width, height)
}

/// The tiles of the interior wall along `axe`, each solid: the middle column
/// from the bottom up, or the middle row from the left.
pub open spec fn interior_line_walls(axe: Axis, width: u32, height: u32) -> Seq<Wall> {
    let across = if axe == Axis::Vertical { width } else { height };
    let len = if axe == Axis::Vertical { height } else { width };
    let middle = middle_of(across) as i32;
    if middle_of(across) < across {
        Seq::new(
            len as nat,
            |i: int|
                Wall {
                    position: if axe == Axis::Vertical {
                        Position { x: middle, y: i as i32 }
                    } else {
                        Position { x: i as i32, y: middle }
                    },
                    collision: Some(Collision),
                },
        )
    } else {
        Seq::empty()
    }
}

/// The interior walls of a round of `wall_type`.
pub open spec fn interior_walls(wall_type: usize, width: u32, height: u32) -> Seq<Wall> {
    if wall_type == VERTICAL_WALL {
        interior_line_walls(Axis::Vertical, width, height)
    } else if wall_type == HORIZONTAL_WALL {
        interior_line_walls(Axis::Horizontal, width, height)
    } else if wall_type == VERTICAL_AND_HORIZONTAL_WALL {
        interior_line_walls(Axis::Vertical, width, height) + interior_line_walls(
            Axis::Horizontal,
            width,
            height,
        )
    } else {
        Seq::empty()
    }
}

/// The column of a vertical interior wall, or the row of a horizontal one.
pub fn get_middle(size: u32) -> (r: u32)
    ensures
        r == middle_of(size),
{
    if size % 2 == 0 {
        (size + 1) / 2
    } else {
        size / 2
    }
}

/// The grid of a round: an interior wall takes a column or a row of its own,
/// so the grid grows by one in that direction.
pub fn arena_tile_size(game_type: GameType, width: u32, height: u32) -> (r: (u32, u32))
    requires
        width < u32::MAX,
        height < u32::MAX,
    ensures
        r.0 == width + if has_vertical_wall(game_type.wall_type) { 1int } else { 0 },
        r.1 == height + if has_horizontal_wall(game_type.wall_type) { 1int } else { 0 },
{
    let mut tile_width = width;
    let mut tile_height = height;
    if game_type.wall_type == VERTICAL_WALL || game_type.wall_type == VERTICAL_AND_HORIZONTAL_WALL {
        tile_width = tile_width + 1;
    }
    if game_type.wall_type == HORIZONTAL_WALL || game_type.wall_type
        == VERTICAL_AND_HORIZONTAL_WALL {
        tile_height = tile_height + 1;
    }
    (tile_width, tile_height)
}

/// Whether the round has obstacles of any kind.
pub fn is_game_with_wall(game_type: GameType) -> (r: bool)
    ensures
        r == (game_type.wall_type != WITHOUT_WALL),
{
    game_type.wall_type != WITHOUT_WALL
}

/// Whether the snake wraps around the arena's edges.
pub fn can_pass(game_type: GameType) -> (r: bool)
    ensures
        r == !has_solid_border(game_type.wall_type),
{
    game_type.wall_type != EXTERIOR_WALL
}

/// Adds one side pair of the exterior ring: the left and right columns for
/// `Axis::Vertical`, the top and bottom rows for `Axis::Horizontal`. They stop
/// the snake only in a round with an exterior wall.
pub fn exterior_walls_spawn_by_axe(
    walls: &mut Vec<Wall>,
    game_type: GameType,
    width: u32,
    height: u32,
    axe: Axis,
)
    requires
        width < i32::MAX,
        height < i32::MAX,
    ensures
        final(walls)@ == old(walls)@ + side_walls(axe, game_type.wall_type, width, height),
        extends_layout(final(walls)@, old(walls)@, game_type.wall_type, width, height),
        forall|p: Position| has_wall_at(old(walls)@, p) ==> has_wall_at(final(walls)@, p),
        forall|p: Position|
            on_border(p, width, height) && -1 < (if axe == Axis::Vertical { p.y } else { p.x }) < (
            if axe == Axis::Vertical { height } else { width }) && (if axe == Axis::Vertical {
                p.x == -1 || p.x == width
            } else {
                p.y == -1 || p.y == height
            }) ==> has_wall_at(final(walls)@, p),
{
    let collision = if game_type.wall_type == EXTERIOR_WALL { Some(Collision) } else { None };
    let len = if axe == Axis::Vertical { height } else { width };
    let ghost start = walls@;
    let mut i: u32 = 0;
    while i < len
        invariant
            i <= len,
            width < i32::MAX,
            height < i32::MAX,
            len == if axe == Axis::Vertical { height } else { width },
            collision == border_collision(game_type.wall_type),
            walls@ == start + side_walls(axe, game_type.wall_type, width, height).subrange(
                0,
                2 * i as int,
            ),
            extends_layout(walls@, start, game_type.wall_type, width, height),
            forall|p: Position| has_wall_at(start, p) ==> has_wall_at(walls@, p),
            forall|p: Position|
                on_border(p, width, height) && -1 < (if axe == Axis::Vertical { p.y } else { p.x })
                    < i && (if axe == Axis::Vertical {
                    p.x == -1 || p.x == width
                } else {
                    p.y == -1 || p.y == height
                }) ==> has_wall_at(walls@, p),
        decreases len - i,
    {
        let (first, second) = if axe == Axis::Vertical {
            (Position { x: -1, y: i as i32 }, Position { x: width as i32, y: i as i32 })
        } else {
            (Position { x: i as i32, y: height as i32 }, Position { x: i as i32, y: -1 })
        };
        proof {
            lemma_push_keeps_walls(walls@, Wall { position: first, collision });
            lemma_push_keeps_walls(walls@.push(Wall { position: first, collision }), Wall { position: second, collision });
        }
        let ghost before = walls@;
        walls.push(Wall { position: first, collision });
        walls.push(Wall { position: second, collision });
        proof {
            let sides = side_walls(axe, game_type.wall_type, width, height);
            assert(sides[2 * i as int] == Wall { position: first, collision });
            assert(sides[2 * i + 1] == Wall { position: second, collision });
            assert(walls@ =~= start + sides.subrange(0, 2 * (i + 1)));
        }
        i = i + 1;
    }
    proof {
        let sides = side_walls(axe, game_type.wall_type, width, height);
        assert(sides.subrange(0, 2 * i as int) =~= sides);
    }
}

/// Adds the four corners of the exterior ring.
pub fn exterior_wall_corners_spawn(
    walls: &mut Vec<Wall>,
    game_type: GameType,
    width: u32,
    height: u32,
)
    requires
        width < i32::MAX,
        height < i32::MAX,
    ensures
        final(walls)@ == old(walls)@ + corner_walls(game_type.wall_type, width, height),
        extends_layout(final(walls)@, old(walls)@, game_type.wall_type, width, height),
        forall|p: Position| has_wall_at(old(walls)@, p) ==> has_wall_at(final(walls)@, p),
        forall|p: Position|
            (p.x == -1 || p.x == width) && (p.y == -1 || p.y == height) ==> has_wall_at(
                final(walls)@,
                p,
            ),
{
    let collision = if game_type.wall_type == EXTERIOR_WALL { Some(Collision) } else { None };
    let w = width as i32;
    let h = height as i32;
    let corners = [
        Position { x: -1, y: -1 },
        Position { x: -1, y: h },
        Position { x: w, y: -1 },
        Position { x: w, y: h },
    ];
    let ghost start = walls@;
    let mut i: usize = 0;
    while i < 4
        invariant
            i <= 4,
            corners@ == seq![
                Position { x: -1i32, y: -1i32 },
                Position { x: -1i32, y: h },
                Position { x: w, y: -1i32 },
                Position { x: w, y: h },
            ],
            w == width,
            h == height,
            collision == border_collision(game_type.wall_type),
            walls@ == start + corner_walls(game_type.wall_type, width, height).subrange(0, i as int),
            extends_layout(walls@, start, game_type.wall_type, width, height),
            forall|p: Position| has_wall_at(start, p) ==> has_wall_at(walls@, p),
            forall|k: int| 0 <= k < i ==> has_wall_at(walls@, #[trigger] corners@[k]),
        decreases 4 - i,
    {
        let wall = Wall { position: corners[i], collision };
        proof {
            lemma_push_keeps_walls(walls@, wall);
        }
        walls.push(wall);
        proof {
            let corners_spec = corner_walls(game_type.wall_type, width, height);
            assert(corners_spec[i as int] == wall);
            assert(walls@ =~= start + corners_spec.subrange(0, i + 1));
        }
        i = i + 1;
    }
    proof {
        let corners_spec = corner_walls(game_type.wall_type, width, height);
        assert(corners_spec.subrange(0, 4) =~= corners_spec);
    }
    proof {
        assert forall|p: Position|
            (p.x == -1 || p.x == width) && (p.y == -1 || p.y == height) implies has_wall_at(
                walls@,
                p,
            ) by {
            if p.x == -1 && p.y == -1 {
                assert(corners@[0] == p);
            } else if p.x == -1 {
                assert(corners@[1] == p);
            } else if p.y == -1 {
                assert(corners@[2] == p);
            } else {
                assert(corners@[3] == p);
            }
        }
    }
}

/// The exterior ring around the grid.
pub fn exterior_walls_spawn_system(
    walls: &mut Vec<Wall>,
    game_type: GameType,
    width: u32,
    height: u32,
)
    requires
        width < i32::MAX,
        height < i32::MAX,
    ensures
        final(walls)@ == old(walls)@ + exterior_walls(game_type.wall_type, width, height),
        extends_layout(final(walls)@, old(walls)@, game_type.wall_type, width, height),
        forall|p: Position| has_wall_at(old(walls)@, p) ==> has_wall_at(final(walls)@, p),
        forall|p: Position| on_border(p, width, height) ==> has_wall_at(final(walls)@, p),
{
    let ghost start = walls@;
    exterior_walls_spawn_by_axe(walls, game_type, width, height, Axis::Vertical);
    exterior_walls_spawn_by_axe(walls, game_type, width, height, Axis::Horizontal);
    exterior_wall_corners_spawn(walls, game_type, width, height);
    proof {
        assert(walls@ =~= start + exterior_walls(game_type.wall_type, width, height));
    }
}

/// A tile of the interior wall that runs along `axe`: the middle column or
/// the middle row.
pub open spec fn on_interior_line(p: Position, axe: Axis, width: u32, height: u32) -> bool {
    &&& in_grid(p, width, height)
    &&& if axe == Axis::Vertical {
        p.x == middle_of(width)
    } else {
        p.y == middle_of(height)
    }
}

/// Adds the interior wall that runs along `axe` and takes its tiles out of
/// `positions_available`.
pub fn interior_walls_spawn(
    walls: &mut Vec<Wall>,
    positions_available: &mut Vec<Position>,
    game_type: GameType,
    width: u32,
    height: u32,
    axe: Axis,
)
    requires
        width < i32::MAX,
        height < i32::MAX,
        axe == Axis::Vertical ==> has_vertical_wall(game_type.wall_type),
        axe == Axis::Horizontal ==> has_horizontal_wall(game_type.wall_type),
    ensures
        extends_layout(final(walls)@, old(walls)@, game_type.wall_type, width, height),
        forall|p: Position| has_wall_at(old(walls)@, p) ==> has_wall_at(final(walls)@, p),
        final(walls)@ == old(walls)@ + interior_line_walls(axe, width, height),
        forall|p: Position| on_interior_line(p, axe, width, height) ==> has_wall_at(final(walls)@, p),
        forall|p: Position|
            final(positions_available)@.contains(p) <==> old(positions_available)@.contains(p)
                && !on_interior_line(p, axe, width, height),
        old(positions_available)@.no_duplicates() ==> final(positions_available)@.no_duplicates(),
{
    let middle = if axe == Axis::Vertical { get_middle(width) } else { get_middle(height) };
    let len = if axe == Axis::Vertical { height } else { width };
    let across = if axe == Axis::Vertical { width } else { height };
    let ghost start = walls@;
    if middle < across {
        let mut i: u32 = 0;
        while i < len
            invariant
                i <= len,
                width < i32::MAX,
                height < i32::MAX,
                middle < across,
                len == if axe == Axis::Vertical { height } else { width },
                across == if axe == Axis::Vertical { width } else { height },
                middle == if axe == Axis::Vertical { middle_of(width) } else { middle_of(height) },
                axe == Axis::Vertical ==> has_vertical_wall(game_type.wall_type),
                axe == Axis::Horizontal ==> has_horizontal_wall(game_type.wall_type),
                extends_layout(walls@, start, game_type.wall_type, width, height),
                walls@ == start + interior_line_walls(axe, width, height).subrange(0, i as int),
                forall|p: Position| has_wall_at(start, p) ==> has_wall_at(walls@, p),
                forall|p: Position|
                    on_interior_line(p, axe, width, height) && (if axe == Axis::Vertical {
                        p.y
                    } else {
                        p.x
                    }) < i ==> has_wall_at(walls@, p),
            decreases len - i,
        {
            let position = if axe == Axis::Vertical {
                Position { x: middle as i32, y: i as i32 }
            } else {
                Position { x: i as i32, y: middle as i32 }
            };
            let wall = Wall { position, collision: Some(Collision) };
            proof {
                lemma_push_keeps_walls(walls@, wall);
            }
            walls.push(wall);
            proof {
                let line = interior_line_walls(axe, width, height);
                assert(line[i as int] == wall);
                assert(walls@ =~= start + line.subrange(0, i + 1));
            }
            i = i + 1;
        }
        proof {
            let line = interior_line_walls(axe, width, height);
            assert(line.subrange(0, len as int) =~= line);
        }
    } else {
        proof {
            assert(walls@ =~= start + interior_line_walls(axe, width, height));
        }
    }
    let ghost before = positions_available@;
    let ghost keep = |p: Position| !on_interior_line(p, axe, width, height);
    let mut kept: Vec<Position> = Vec::new();
    let mut k: usize = 0;
    while k < positions_available.len()
        invariant
            k <= positions_available@.len(),
            positions_available@ == before,
            middle == if axe == Axis::Vertical { middle_of(width) } else { middle_of(height) },
            keep == (|p: Position| !on_interior_line(p, axe, width, height)),
            kept@ == before.subrange(0, k as int).filter(keep),
        decreases positions_available@.len() - k,
    {
        let p = positions_available[k];
        let on_line = 0 <= p.x && (p.x as i64) < (width as i64) && 0 <= p.y && (p.y as i64) < (
        height as i64) && if axe == Axis::Vertical {
            p.x as i64 == middle as i64
        } else {
            p.y as i64 == middle as i64
        };
        proof {
            assert(before.subrange(0, k + 1) =~= before.subrange(0, k as int).push(p));
            before.subrange(0, k as int).lemma_filter_push(p, keep);
        }
        if !on_line {
            kept.push(p);
        }
        k = k + 1;
    }
    proof {
        assert(before.subrange(0, before.len() as int) =~= before);
        assert forall|p: Position|
            kept@.contains(p) <==> before.contains(p) && !on_interior_line(p, axe, width, height) by {
            lemma_filter_contains_iff(before, keep, p);
        }
        if before.no_duplicates() {
            lemma_filter_no_duplicates(before, keep);
        }
    }
    *positions_available = kept;
}

/// The interior walls of the round, with their tiles taken out of
/// `positions_available`.
pub fn interior_walls_spawn_system(
    walls: &mut Vec<Wall>,
    positions_available: &mut Vec<Position>,
    game_type: GameType,
    width: u32,
    height: u32,
)
    requires
        width < i32::MAX,
        height < i32::MAX,
    ensures
        final(walls)@ == old(walls)@ + interior_walls(game_type.wall_type, width, height),
        !has_vertical_wall(game_type.wall_type) && !has_horizontal_wall(game_type.wall_type)
            ==> final(positions_available)@ == old(positions_available)@,
        old(positions_available)@.no_duplicates() ==> final(positions_available)@.no_duplicates(),
        extends_layout(final(walls)@, old(walls)@, game_type.wall_type, width, height),
        forall|p: Position| has_wall_at(old(walls)@, p) ==> has_wall_at(final(walls)@, p),
        forall|p: Position|
            on_interior_wall(p, game_type.wall_type, width, height) ==> has_wall_at(
                final(walls)@,
                p,
            ),
        forall|p: Position|
            final(positions_available)@.contains(p) <==> old(positions_available)@.contains(p)
                && !on_interior_wall(p, game_type.wall_type, width, height),
{
    let ghost start = walls@;
    if game_type.wall_type == VERTICAL_WALL {
        interior_walls_spawn(walls, positions_available, game_type, width, height, Axis::Vertical);
    } else if game_type.wall_type == HORIZONTAL_WALL {
        interior_walls_spawn(
            walls,
            positions_available,
            game_type,
            width,
            height,
            Axis::Horizontal,
        );
    } else if game_type.wall_type == VERTICAL_AND_HORIZONTAL_WALL {
        interior_walls_spawn(walls, positions_available, game_type, width, height, Axis::Vertical);
        interior_walls_spawn(
            walls,
            positions_available,
            game_type,
            width,
            height,
            Axis::Horizontal,
        );
    }
    proof {
        if game_type.wall_type == VERTICAL_AND_HORIZONTAL_WALL {
            assert(walls@ =~= start + interior_walls(game_type.wall_type, width, height));
        } else if game_type.wall_type != VERTICAL_WALL && game_type.wall_type != HORIZONTAL_WALL {
            assert(walls@ =~= start + interior_walls(game_type.wall_type, width, height));
        }
    }
}

/// Every tile of a grid of `height` rows and `width` columns.
pub fn get_all_arena_positions(height: u32, width: u32) -> (r: Vec<Position>)
    requires
        width <= i32::MAX,
        height <= i32::MAX,
    ensures
        forall|p: Position| r@.contains(p) <==> in_grid(p, width, height),
        r@.no_duplicates(),
{
    let mut all: Vec<Position> = Vec::new();
    let mut y: u32 = 0;
    while y < height
        invariant
            y <= height,
            width <= i32::MAX,
            height <= i32::MAX,
            forall|i: int| 0 <= i < all@.len() ==> in_grid(#[trigger] all@[i], width, height),
            forall|p: Position| in_grid(p, width, height) && p.y < y ==> all@.contains(p),
            forall|i: int| 0 <= i < all@.len() ==> (#[trigger] all@[i]).y < y,
            all@.no_duplicates(),
        decreases height - y,
    {
        let mut x: u32 = 0;
        while x < width
            invariant
                x <= width,
                y < height,
                width <= i32::MAX,
                height <= i32::MAX,
                forall|i: int| 0 <= i < all@.len() ==> in_grid(#[trigger] all@[i], width, height),
                forall|p: Position|
                    in_grid(p, width, height) && (p.y < y || (p.y == y && p.x < x))
                        ==> all@.contains(p),
                forall|i: int|
                    0 <= i < all@.len() ==> (#[trigger] all@[i]).y < y || (all@[i].y == y
                        && all@[i].x < x),
                all@.no_duplicates(),
            decreases width - x,
        {
            let p = Position { x: x as i32, y: y as i32 };
            let ghost before = all@;
            all.push(p);
            proof {
                assert forall|i: int, j: int|
                    0 <= i < all@.len() && 0 <= j < all@.len() && i != j implies all@[i]
                    != all@[j] by {
                    if i < before.len() && j < before.len() {
                        assert(all@[i] == before[i] && all@[j] == before[j]);
                    } else if i < before.len() {
                        assert(all@[i] == before[i]);
                    } else {
                        assert(all@[j] == before[j]);
                    }
                }
                assert forall|q: Position|
                    in_grid(q, width, height) && (q.y < y || (q.y == y && q.x < x + 1))
                        implies all@.contains(q) by {
                    if q == p {
                        assert(all@[all@.len() - 1] == q);
                    } else {
                        let k = choose|k: int| 0 <= k < before.len() && before[k] == q;
                        assert(all@[k] == q);
                    }
                }
            }
            x = x + 1;
        }
        y = y + 1;
    }
    proof {
        assert forall|p: Position| all@.contains(p) implies in_grid(p, width, height) by {
            let k = choose|k: int| 0 <= k < all@.len() && all@[k] == p;
        }
    }
    all
}

} // verus!
