//! A round of the game: the simulation context that every tick works on.

use std::collections::VecDeque;

use vstd::prelude::*;

use crate::bonus::{bonus_ticked, crossing_ticked, BonusTimer, CrossingObstaclesTimer};
use crate::food::{eat_step, timers_step};
use crate::components::{
    Direction, Food, FoodTimer, FoodType, GameType, Position, SnakeBody, SnakeHead, Wall,
};
use crate::snake::{
    edit_snake_direction, is_same_position, next_position, segment_positions, tail_marked, turned,
    update_snake_head_position,
};
use crate::timer::TimerMode;
use crate::wall::{
    arena_tile_size, can_pass, exterior_walls_spawn_system, get_all_arena_positions,
    has_horizontal_wall, has_solid_border, has_solid_wall_at, has_vertical_wall, has_wall_at,
    in_grid, interior_walls_spawn_system, is_layout, is_layout_wall, lemma_filter_contains_iff,
    on_interior_wall, HORIZONTAL_WALL,
    VERTICAL_AND_HORIZONTAL_WALL, VERTICAL_WALL,
};

verus! {

/// At most this many simple foods lie on the arena at once.
pub const FOOD_MAX: u32 = 3;

/// Where the head starts.
pub const START_X: i32 = 3;

pub const START_Y: i32 = 3;

/// How a round ended.
#[derive(Clone, Copy, Debug, PartialEq, Eq, Structural)]
pub enum RoundOutcome {
    Win,
    Loss,
}

/// A piece of food on the arena. Bonus food carries a color cycle.
#[derive(Clone, Copy, Debug)]
pub struct FoodItem {
    pub food: Food,
    pub position: Position,
    pub timer: FoodTimer,
    pub bonus_timer: Option<BonusTimer>,
}

impl FoodItem {
    pub open spec fn wf(&self) -> bool {
        &&& self.timer.0.wf()
        &&& self.timer.0.mode == TimerMode::Once
        &&& self.bonus_timer.is_some() <==> self.food.0 == FoodType::Bonus
        &&& self.bonus_timer matches Some(b) ==> b.colors_wf()
    }
}

/// Number of simple foods in `foods`.
pub open spec fn count_simple(foods: Seq<FoodItem>) -> nat
    decreases foods.len(),
{
    if foods.len() == 0 {
        0
    } else {
        count_simple(foods.drop_last()) + if foods.last().food.0 == FoodType::Simple {
            1nat
        } else {
            0
        }
    }
}

pub proof fn lemma_count_simple_append(a: Seq<FoodItem>, b: Seq<FoodItem>)
    ensures
        count_simple(a + b) == count_simple(a) + count_simple(b),
    decreases b.len(),
{
    if b.len() > 0 {
        assert((a + b).drop_last() =~= a + b.drop_last());
        lemma_count_simple_append(a, b.drop_last());
    } else {
        assert(a + b =~= a);
    }
}

pub proof fn lemma_count_simple_remove(s: Seq<FoodItem>, i: int)
    requires
        0 <= i < s.len(),
    ensures
        count_simple(s) == count_simple(s.remove(i)) + if s[i].food.0 == FoodType::Simple {
            1nat
        } else {
            0
        },
{
    let a = s.subrange(0, i);
    let b = s.subrange(i + 1, s.len() as int);
    assert(s =~= a + (seq![s[i]] + b));
    assert(s.remove(i) =~= a + b);
    lemma_count_simple_append(a, seq![s[i]] + b);
    lemma_count_simple_append(seq![s[i]], b);
    lemma_count_simple_append(a, b);
    assert(seq![s[i]].drop_last() =~= Seq::<FoodItem>::empty());
    reveal_with_fuel(count_simple, 2);
}

/// The number of tiles the snake can fill: the grid less its interior walls.
pub open spec fn max_fillable(wall_type: usize, width: u32, height: u32) -> int {
    let w = if has_vertical_wall(wall_type) { width - 1 } else { width as int };
    let h = if has_horizontal_wall(wall_type) { height - 1 } else { height as int };
    w * h
}

/// `new` is `old` after one movement tick of a round still running.
pub open spec fn movement_step(old: &Game, new: &Game) -> bool {
    &&& new.head == next_position(
        old.head,
        old.direction,
        old.tile_width,
        old.tile_height,
        !has_solid_border(old.game_type.wall_type),
    )
    &&& segment_positions(new.body()) == if old.snake.ate {
        segment_positions(old.body()).push(old.head)
    } else {
        segment_positions(old.body()).push(old.head).drop_first()
    }
    &&& new.body().len() == old.body().len() + if old.snake.ate {
        1int
    } else {
        0
    }
    &&& new.snake.moved
    &&& !new.snake.ate
    &&& new.snake.invincible == old.snake.invincible
    &&& new.direction == old.direction
    &&& new.foods == old.foods
    &&& new.walls == old.walls
    &&& new.positions_available == old.positions_available
    &&& new.game_type == old.game_type
    &&& new.tile_width == old.tile_width
    &&& new.tile_height == old.tile_height
    &&& new.bonus_timer == old.bonus_timer
    &&& new.crossing == old.crossing
    &&& new.food_count == old.food_count
    &&& new.score == old.score
    &&& new.outcome == old.outcome
}

/// `g` after the invincibility's life timer ran `delta` more microseconds:
/// when the last phase is over, the snake is no longer invincible and the
/// obstacles stop blinking.
pub open spec fn bonus_stepped(g: Game, delta: u64) -> Game {
    match g.bonus_timer {
        None => g,
        Some(b) => match bonus_ticked(b, delta) {
            Some(n) => Game { bonus_timer: Some(n), ..g },
            None => Game {
                bonus_timer: None,
                crossing: None,
                snake: SnakeHead { invincible: false, ..g.snake },
                ..g
            },
        },
    }
}

/// `g` after `delta` more microseconds of obstacle blinking.
pub open spec fn crossing_stepped(g: Game, delta: u64) -> Game {
    match (g.crossing, g.bonus_timer) {
        (Some(c), Some(b)) => Game { crossing: Some(crossing_ticked(c, b.life_cycle, delta)), ..g },
        _ => g,
    }
}

/// The state of a round.
pub struct Game {
    pub game_type: GameType,
    /// Size of the grid, interior walls included.
    pub tile_width: u32,
    pub tile_height: u32,
    /// The tiles of the grid that no interior wall covers, each once.
    pub positions_available: Vec<Position>,
    pub walls: Vec<Wall>,
    pub head: Position,
    pub direction: Direction,
    pub snake: SnakeHead,
    /// The running invincibility, if any.
    pub bonus_timer: Option<BonusTimer>,
    /// The obstacle blinking of a running invincibility.
    pub crossing: Option<CrossingObstaclesTimer>,
    pub foods: Vec<FoodItem>,
    /// Number of simple foods on the arena.
    pub food_count: u32,
    pub score: u32,
    pub outcome: Option<RoundOutcome>,
}

impl Game {
    pub open spec fn body(&self) -> Seq<SnakeBody> {
        self.snake.body_parts@
    }

    pub open spec fn body_at(&self, p: Position) -> bool {
        exists|i: int| 0 <= i < self.body().len() && #[trigger] self.body()[i].position == p
    }

    pub open spec fn food_at(&self, p: Position) -> bool {
        exists|i: int| 0 <= i < self.foods@.len() && #[trigger] self.foods@[i].position == p
    }

    /// A tile that the head, a body segment or a piece of food is on.
    pub open spec fn occupied(&self, p: Position) -> bool {
        p == self.head || self.body_at(p) || self.food_at(p)
    }

    /// A tile that stops the snake.
    pub open spec fn solid_at(&self, p: Position) -> bool {
        has_solid_wall_at(self.walls@, p)
    }

    /// The arena's free tiles: neither wall, snake nor food.
    pub open spec fn free_tiles(&self) -> Set<Position> {
        Set::new(|p: Position| self.positions_available@.contains(p) && !self.occupied(p))
    }

    /// The free tiles in the order in which food placement draws from them.
    pub open spec fn candidates(&self) -> Seq<Position> {
        self.positions_available@.filter(|p: Position| !self.occupied(p))
    }

    /// Whether the head stands on its own body or on a solid wall.
    pub open spec fn collides(&self) -> bool {
        self.body_at(self.head) || self.solid_at(self.head)
    }

    pub open spec fn snake_size(&self) -> int {
        1 + self.body().len() as int
    }

    /// Everything but the food is as in `other`.
    pub open spec fn same_except_food(&self, other: &Game) -> bool {
        &&& self.game_type == other.game_type
        &&& self.tile_width == other.tile_width
        &&& self.tile_height == other.tile_height
        &&& self.positions_available == other.positions_available
        &&& self.walls == other.walls
        &&& self.head == other.head
        &&& self.direction == other.direction
        &&& self.snake == other.snake
        &&& self.bonus_timer == other.bonus_timer
        &&& self.crossing == other.crossing
        &&& self.score == other.score
        &&& self.outcome == other.outcome
    }

    pub open spec fn foods_wf(&self) -> bool {
        &&& forall|i: int| 0 <= i < self.foods@.len() ==> (#[trigger] self.foods@[i]).wf()
        &&& forall|i: int, j: int|
            0 <= i < self.foods@.len() && 0 <= j < self.foods@.len() && i != j
                ==> self.foods@[i].position != self.foods@[j].position
        &&& self.food_count == count_simple(self.foods@)
        &&& self.food_count <= FOOD_MAX
    }

    /// The round's invariant.
    pub open spec fn wf(&self) -> bool {
        &&& self.tile_width < i32::MAX
        &&& self.tile_height < i32::MAX
        &&& is_layout(self.walls@, self.game_type.wall_type, self.tile_width, self.tile_height)
        &&& forall|p: Position|
            self.positions_available@.contains(p) <==> in_grid(
                p,
                self.tile_width,
                self.tile_height,
            ) && !on_interior_wall(p, self.game_type.wall_type, self.tile_width, self.tile_height)
        &&& self.positions_available@.no_duplicates()
        &&& tail_marked(self.body())
        &&& self.snake.invincible <==> self.bonus_timer.is_some()
        &&& self.snake.invincible <==> self.crossing.is_some()
        &&& self.bonus_timer matches Some(b) ==> b.wf()
        &&& self.crossing matches Some(c) ==> c.wf()
        &&& self.foods_wf()
    }

    /// Sets up a round on an arena of `width` by `height` playable tiles: the
    /// walls of the round's type, and a snake of one body segment heading
    /// right.
    pub fn new(game_type: GameType, width: u32, height: u32) -> (r: Game)
        requires
            width < i32::MAX - 1,
            height < i32::MAX - 1,
        ensures
            r.wf(),
            r.game_type == game_type,
            r.tile_width == width + if has_vertical_wall(game_type.wall_type) { 1int } else { 0 },
            r.tile_height == height + if has_horizontal_wall(game_type.wall_type) {
                1int
            } else {
                0
            },
            r.head == (Position { x: START_X, y: START_Y }),
            r.direction == Direction::Right,
            segment_positions(r.body()) == seq![Position { x: (START_X - 1) as i32, y: START_Y }],
            r.snake.moved,
            !r.snake.ate,
            !r.snake.invincible,
            r.foods@.len() == 0,
            r.food_count == 0,
            r.score == 0,
            r.outcome.is_none(),
    {
        let (tile_width, tile_height) = arena_tile_size(game_type, width, height);
        let mut positions_available = get_all_arena_positions(tile_height, tile_width);
        let mut walls: Vec<Wall> = Vec::new();
        exterior_walls_spawn_system(&mut walls, game_type, tile_width, tile_height);
        interior_walls_spawn_system(
            &mut walls,
            &mut positions_available,
            game_type,
            tile_width,
            tile_height,
        );
        let tail = SnakeBody {
            is_tail: true,
            id: uuid::Uuid::new_v4(),
            position: Position { x: START_X - 1, y: START_Y },
        };
        let mut body_parts: VecDeque<SnakeBody> = VecDeque::new();
        body_parts.push_back(tail);
        let game = Game {
            game_type,
            tile_width,
            tile_height,
            positions_available,
            walls,
            head: Position { x: START_X, y: START_Y },
            direction: Direction::Right,
            snake: SnakeHead { moved: true, ate: false, invincible: false, body_parts },
            bonus_timer: None,
            crossing: None,
            foods: Vec::new(),
            food_count: 0,
            score: 0,
            outcome: None,
        };
        proof {
            assert(segment_positions(game.body()) =~= seq![Position { x: (START_X - 1) as i32, y: START_Y }]);
            assert(count_simple(game.foods@) == 0);
        }
        game
    }

    /// The snake size at which the round is won.
    pub fn max_snake_size(&self) -> (r: i128)
        ensures
            r == max_fillable(self.game_type.wall_type, self.tile_width, self.tile_height),
            -(u32::MAX as int) <= r <= (u32::MAX as int) * (u32::MAX as int),
    {
        let wall_type = self.game_type.wall_type;
        let mut width = self.tile_width as i128;
        let mut height = self.tile_height as i128;
        if wall_type == VERTICAL_WALL || wall_type == VERTICAL_AND_HORIZONTAL_WALL {
            width = width - 1;
        }
        if wall_type == HORIZONTAL_WALL || wall_type == VERTICAL_AND_HORIZONTAL_WALL {
            height = height - 1;
        }
        proof {
            assert(-1 <= width <= u32::MAX);
            assert(-1 <= height <= u32::MAX);
            assert(-(u32::MAX as int) <= width * height <= (u32::MAX as int) * (u32::MAX as int))
                by (nonlinear_arith)
                requires
                    -1 <= width <= u32::MAX,
                    -1 <= height <= u32::MAX,
            ;
        }
        width * height
    }

    /// Whether the snake is invincible.
    pub fn check_snake_is_invincible(&self) -> (r: bool)
        ensures
            r == self.snake.invincible,
    {
        self.snake.invincible
    }

    /// Asks the snake to head along `requested`. The request is taken only if
    /// the snake has moved since the last turn it took, and only as a quarter
    /// turn; a request along the current axis is ignored. Returns whether the
    /// heading changed.
    pub fn change_direction(&mut self, requested: Direction) -> (r: bool)
        requires
            old(self).wf(),
        ensures
            final(self).wf(),
            r == (old(self).snake.moved && turned(old(self).direction, requested)
                != old(self).direction),
            final(self).direction == if r { requested } else { old(self).direction },
            final(self).snake.moved == (old(self).snake.moved && !r),
            final(self).snake.ate == old(self).snake.ate,
            final(self).snake.invincible == old(self).snake.invincible,
            final(self).snake.body_parts@ == old(self).snake.body_parts@,
            final(self).head == old(self).head,
            final(self).foods@ == old(self).foods@,
            final(self).walls@ == old(self).walls@,
            final(self).positions_available@ == old(self).positions_available@,
            final(self).game_type == old(self).game_type,
            final(self).tile_width == old(self).tile_width,
            final(self).tile_height == old(self).tile_height,
            final(self).bonus_timer == old(self).bonus_timer,
            final(self).crossing == old(self).crossing,
            final(self).food_count == old(self).food_count,
            final(self).score == old(self).score,
            final(self).outcome == old(self).outcome,
    {
        if !self.snake.moved {
            return false;
        }
        let direction = edit_snake_direction(self.direction, requested);
        if direction != self.direction {
            self.direction = direction;
            self.snake.moved = false;
            true
        } else {
            false
        }
    }

    /// One movement tick: the head steps along its heading, a body segment
    /// takes the tile it left, and the oldest segment goes unless the snake
    /// ate since the last tick. Nothing moves once the round is over.
    pub fn snake_movement_system(&mut self)
        requires
            old(self).wf(),
        ensures
            final(self).wf(),
            old(self).outcome.is_some() ==> *final(self) == *old(self),
            old(self).outcome.is_none() ==> movement_step(old(self), final(self)),
    {
        if self.outcome.is_some() {
            return;
        }
        let previous = self.head;
        let pass = can_pass(self.game_type);
        self.head = update_snake_head_position(
            self.direction,
            previous,
            self.tile_width,
            self.tile_height,
            pass,
        );
        self.snake.moved = true;
        let ghost before = self.body();
        self.snake.add_new_body_part(previous);
        proof {
            assert(segment_positions(self.body()) =~= segment_positions(before).push(previous));
        }
        if self.snake.ate {
            self.snake.ate = false;
        } else {
            let ghost grown = self.body();
            self.snake.remove_body_part();
            proof {
                assert(segment_positions(self.body()) =~= segment_positions(grown).drop_first());
            }
        }
    }

    /// Whether the head stands on a body segment.
    pub fn collide_with_body(&self) -> (r: bool)
        ensures
            r == self.body_at(self.head),
    {
        let mut i: usize = 0;
        while i < self.snake.body_parts.len()
            invariant
                i <= self.body().len(),
                forall|j: int| 0 <= j < i ==> self.body()[j].position != self.head,
            decreases self.body().len() - i,
        {
            if is_same_position(&self.head, &self.snake.body_parts[i].position) {
                return true;
            }
            i = i + 1;
        }
        false
    }

    /// Whether the head stands on a wall that stops it.
    pub fn collide_with_wall(&self) -> (r: bool)
        ensures
            r == self.solid_at(self.head),
    {
        let mut i: usize = 0;
        while i < self.walls.len()
            invariant
                i <= self.walls@.len(),
                forall|j: int|
                    0 <= j < i ==> !(self.walls@[j].position == self.head
                        && self.walls@[j].collision.is_some()),
            decreases self.walls@.len() - i,
        {
            if self.walls[i].collision.is_some() && is_same_position(
                &self.head,
                &self.walls[i].position,
            ) {
                return true;
            }
            i = i + 1;
        }
        false
    }

    /// Ends the round as lost when the head, not invincible, stands on the
    /// body or on a solid wall.
    pub fn check_correct_snake_head_position_system(&mut self)
        requires
            old(self).wf(),
        ensures
            final(self).wf(),
            *final(self) == (Game {
                outcome: if old(self).outcome.is_none() && !old(self).snake.invincible
                    && old(self).collides() {
                    Some(RoundOutcome::Loss)
                } else {
                    old(self).outcome
                },
                ..*old(self)
            }),
    {
        if self.outcome.is_none() && !self.check_snake_is_invincible() {
            if self.collide_with_body() || self.collide_with_wall() {
                self.outcome = Some(RoundOutcome::Loss);
            }
        }
    }

    /// Ends the round as won when the snake fills every tile it can fill.
    pub fn check_end_of_game_system(&mut self)
        requires
            old(self).wf(),
        ensures
            final(self).wf(),
            *final(self) == (Game {
                outcome: if old(self).outcome.is_none() && old(self).snake_size() == max_fillable(
                    old(self).game_type.wall_type,
                    old(self).tile_width,
                    old(self).tile_height,
                ) {
                    Some(RoundOutcome::Win)
                } else {
                    old(self).outcome
                },
                ..*old(self)
            }),
    {
        let size = 1 + self.snake.body_parts.len() as i128;
        if self.outcome.is_none() && size == self.max_snake_size() {
            self.outcome = Some(RoundOutcome::Win);
        }
    }

    /// Runs the invincibility's life timer for `delta` microseconds: the phase
    /// moves on when its timer runs out, and after the last phase the snake
    /// is no longer invincible and the obstacles stop blinking.
    pub fn snake_bonus_timer_system(&mut self, delta: u64)
        requires
            old(self).wf(),
        ensures
            final(self).wf(),
            *final(self) == bonus_stepped(*old(self), delta),
    {
        match self.bonus_timer {
            Some(b) => {
                match b.tick_life(delta) {
                    Some(n) => {
                        self.bonus_timer = Some(n);
                    },
                    None => {
                        self.bonus_timer = None;
                        self.crossing = None;
                        self.snake.invincible = false;
                    },
                }
            },
            None => {},
        }
    }

    /// Runs the obstacle blinking of a running invincibility for `delta`
    /// microseconds.
    pub fn obstacles_crossing_system(&mut self, delta: u64)
        requires
            old(self).wf(),
        ensures
            final(self).wf(),
            *final(self) == crossing_stepped(*old(self), delta),
    {
        match (self.crossing, self.bonus_timer) {
            (Some(c), Some(b)) => {
                let mut crossing = c;
                crossing.obstacles_crossing(b.life_cycle, delta);
                self.crossing = Some(crossing);
            },
            _ => {},
        }
    }

    /// Whether obstacles and body segments are drawn faded.
    pub fn obstacles_faded(&self) -> (r: bool)
        ensures
            r == (self.crossing matches Some(c) && c.2),
    {
        match self.crossing {
            Some(c) => c.2,
            None => false,
        }
    }

    /// One frame of `delta` microseconds, after any movement ticks that fell
    /// in it: the collision check, eating, the win check, the invincibility's
    /// timers, food expiry and the color cycles, in that order. A collision
    /// or a win ends the frame there. A round that is over no longer changes.
    pub fn update(&mut self, delta: u64)
        requires
            old(self).wf(),
        ensures
            final(self).wf(),
            old(self).outcome.is_some() ==> *final(self) == *old(self),
            old(self).outcome.is_none() ==> final(self).outcome == if !old(self).snake.invincible
                && old(self).collides() {
                Some(RoundOutcome::Loss)
            } else if old(self).snake_size() == max_fillable(
                old(self).game_type.wall_type,
                old(self).tile_width,
                old(self).tile_height,
            ) {
                Some(RoundOutcome::Win)
            } else {
                None
            },
            old(self).outcome.is_none() && final(self).outcome == Some(RoundOutcome::Loss)
                ==> *final(self) == (Game { outcome: Some(RoundOutcome::Loss), ..*old(self) }),
            old(self).outcome.is_none() && final(self).outcome == Some(RoundOutcome::Win)
                ==> exists|fed: Game|
                #![trigger eat_step(*old(self), fed)]
                eat_step(*old(self), fed) && *final(self) == (Game {
                    outcome: Some(RoundOutcome::Win),
                    ..fed
                }),
            old(self).outcome.is_none() && final(self).outcome.is_none() ==> exists|fed: Game|
                #![trigger eat_step(*old(self), fed)]
                eat_step(*old(self), fed) && timers_step(
                    crossing_stepped(bonus_stepped(fed, delta), delta),
                    *final(self),
                    delta,
                ),
            final(self).head == old(self).head,
            final(self).direction == old(self).direction,
            final(self).snake.body_parts == old(self).snake.body_parts,
            final(self).walls == old(self).walls,
            final(self).positions_available == old(self).positions_available,
            final(self).game_type == old(self).game_type,
    {
        if self.outcome.is_some() {
            return;
        }
        self.check_correct_snake_head_position_system();
        if self.outcome.is_some() {
            return;
        }
        let ghost start = *self;
        let _ = self.snake_ate_food_system();
        let ghost fed = *self;
        proof {
            assert(eat_step(start, fed));
        }
        self.check_end_of_game_system();
        if self.outcome.is_some() {
            return;
        }
        self.snake_bonus_timer_system(delta);
        self.obstacles_crossing_system(delta);
        let ghost timed = *self;
        self.food_timer_system(delta);
        self.bonus_color_timer_system(delta);
        proof {
            assert(timed == crossing_stepped(bonus_stepped(fed, delta), delta));
            assert(timers_step(timed, *self, delta));
        }
    }
}

/// Occupancy: no free tile holds the snake, food or a solid wall, and every
/// tile of the grid is free, occupied or solid.
pub proof fn lemma_occupancy(g: &Game)
    requires
        g.wf(),
    ensures
        forall|p: Position| #[trigger] g.free_tiles().contains(p) ==> !g.occupied(p) && !g.solid_at(p),
        forall|p: Position|
            in_grid(p, g.tile_width, g.tile_height) ==> #[trigger] g.free_tiles().contains(p)
                || g.occupied(p) || g.solid_at(p),
{
    let wt = g.game_type.wall_type;
    let w = g.tile_width;
    let h = g.tile_height;
    assert forall|p: Position| #[trigger] g.free_tiles().contains(p) implies !g.occupied(p)
        && !g.solid_at(p) by {
        if g.solid_at(p) {
            let i = choose|i: int|
                0 <= i < g.walls@.len() && #[trigger] g.walls@[i].position == p
                    && g.walls@[i].collision.is_some();
            assert(is_layout_wall(g.walls@[i], wt, w, h));
        }
    }
    assert forall|p: Position| in_grid(p, w, h) implies #[trigger] g.free_tiles().contains(p)
        || g.occupied(p) || g.solid_at(p) by {
        if !g.positions_available@.contains(p) {
            assert(on_interior_wall(p, wt, w, h));
            assert(has_wall_at(g.walls@, p));
            let i = choose|i: int| 0 <= i < g.walls@.len() && #[trigger] g.walls@[i].position == p;
            assert(is_layout_wall(g.walls@[i], wt, w, h));
        }
    }
}

/// The free tiles that food placement draws from are exactly the free tiles.
pub proof fn lemma_candidates_are_free(g: &Game)
    ensures
        forall|p: Position| g.candidates().contains(p) <==> #[trigger] g.free_tiles().contains(p),
{
    assert forall|p: Position| g.candidates().contains(p) <==> #[trigger] g.free_tiles().contains(
        p,
    ) by {
        lemma_filter_contains_iff(g.positions_available@, |q: Position| !g.occupied(q), p);
    }
}

} // verus!
