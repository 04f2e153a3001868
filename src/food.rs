//! The food's lifecycle: where it appears, what eating it is worth, and when
//! it goes away.

use vstd::prelude::*;

use crate::bonus::{
    blink_period, colors_ticked, phase_duration, BonusTimer, CrossingObstaclesTimer,
};
use crate::components::{
    Food, FoodTimer, FoodType, Position, SIMPLE_FOOD_LIFETIME, SPECIAL_FOOD_LIFETIME,
};
use crate::game::{
    count_simple, lemma_count_simple_append, lemma_count_simple_remove, lemma_occupancy,
    max_fillable, movement_step, FoodItem, Game, FOOD_MAX,
};
use crate::random::{is_lucky, random_index};
use crate::timer::{ticked, Timer, TimerMode};
use crate::wall::{
    is_game_with_wall, lemma_filter_contains_iff, lemma_filter_no_duplicates, WITHOUT_WALL,
};

verus! {

/// Points for simple food by how much of its lifetime had passed when it was
/// eaten: up to a quarter 4, up to half 3, up to three quarters 2, else 1.
/// The share is in whole percent, rounded down. With no lifetime at all, food
/// eaten at once is worth 4 and any later 1.
pub open spec fn points_for(duration_secs: u64, elapsed_secs: u64) -> u32 {
    if duration_secs == 0 {
        if elapsed_secs == 0 {
            4
        } else {
            1
        }
    } else {
        let percent = elapsed_secs * 100 / duration_secs as int;
        if percent <= 25 {
            4
        } else if percent <= 50 {
            3
        } else if percent <= 75 {
            2
        } else {
            1
        }
    }
}

/// Points for gold food, whenever it is eaten.
pub const GOLD_POINTS: u32 = 10;

pub const MICROS_PER_SEC: u64 = 1_000_000;

/// `v`, or the largest `u32` where `v` exceeds it.
pub open spec fn saturate_u32(v: int) -> u32 {
    if v > u32::MAX {
        u32::MAX
    } else {
        v as u32
    }
}

/// The points that eating `item` is worth before the multiplier.
pub open spec fn base_points(item: FoodItem) -> u32 {
    match item.food.0 {
        FoodType::Simple => points_for(
            (item.timer.0.duration / MICROS_PER_SEC) as u64,
            (item.timer.0.elapsed / MICROS_PER_SEC) as u64,
        ),
        FoodType::Gold => GOLD_POINTS,
        FoodType::Bonus => 0,
    }
}

pub open spec fn food_lifetime(kind: FoodType) -> u64 {
    if kind == FoodType::Simple {
        SIMPLE_FOOD_LIFETIME
    } else {
        SPECIAL_FOOD_LIFETIME
    }
}

/// Food of kind `kind` as it appears at `position`.
pub open spec fn spawned_food(kind: FoodType, position: Position) -> FoodItem {
    FoodItem {
        food: Food(kind),
        position,
        timer: FoodTimer(Timer::spec_new(food_lifetime(kind), TimerMode::Once)),
        bonus_timer: if kind == FoodType::Bonus {
            Some(
                BonusTimer {
                    color_timer: Timer::spec_new(blink_period(0), TimerMode::Repeating),
                    index_color: 0,
                    life_timer: None,
                    life_cycle: 0,
                },
            )
        } else {
            None
        },
    }
}

/// `item` after `delta` more microseconds on the arena.
pub open spec fn food_aged(item: FoodItem, delta: u64) -> FoodItem {
    FoodItem { timer: FoodTimer(ticked(item.timer.0, delta)), ..item }
}

/// What is left of `foods` after `delta` more microseconds: each one aged,
/// and those whose lifetime ran out gone.
pub open spec fn foods_after(foods: Seq<FoodItem>, delta: u64) -> Seq<FoodItem> {
    foods.map_values(|f: FoodItem| food_aged(f, delta)).filter(|f: FoodItem| !f.timer.0.finished)
}

/// Points for simple food eaten `elapsed_secs` into a lifetime of
/// `duration_secs`.
pub fn get_points(duration_secs: u64, elapsed_secs: u64) -> (r: u32)
    ensures
        r == points_for(duration_secs, elapsed_secs),
{
    if duration_secs == 0 {
        return if elapsed_secs == 0 { 4 } else { 1 };
    }
    let percent = (elapsed_secs as u128) * 100 / (duration_secs as u128);
    if percent <= 25 {
        4
    } else if percent <= 50 {
        3
    } else if percent <= 75 {
        2
    } else {
        1
    }
}

/// Folds a coordinate pair into one number: the product, or the sum where a
/// coordinate is zero, negated where `x < y`.
pub fn get_couple_x_y(x: i32, y: i32) -> (r: i32)
    requires
        i32::MIN <= (if x == 0 || y == 0 { x + y } else { x * y }) <= i32::MAX,
        x < y ==> i32::MIN < (if x == 0 || y == 0 { x + y } else { x * y }),
    ensures
        r == if x < y {
            -(if x == 0 || y == 0 { x + y } else { x * y })
        } else {
            (if x == 0 || y == 0 { x + y } else { x * y })
        },
{
    let mut x_y: i64 = (x as i64) * (y as i64);
    if x == 0 || y == 0 {
        x_y = (x as i64) + (y as i64);
    }
    if x < y {
        x_y = -x_y;
    }
    x_y as i32
}

/// One of `candidates`, drawn at random, each with the same chance.
pub fn get_new_food_position(candidates: &Vec<Position>) -> (r: Position)
    requires
        candidates@.len() > 0,
    ensures
        candidates@.contains(r),
{
    let index = random_index(candidates.len());
    candidates[index]
}

impl Game {
    /// Whether the head, a body segment or a piece of food is on `p`.
    pub fn is_occupied(&self, p: Position) -> (r: bool)
        ensures
            r == self.occupied(p),
    {
        if self.head == p {
            return true;
        }
        let mut i: usize = 0;
        while i < self.snake.body_parts.len()
            invariant
                i <= self.body().len(),
                forall|j: int| 0 <= j < i ==> self.body()[j].position != p,
            decreases self.body().len() - i,
        {
            if self.snake.body_parts[i].position == p {
                return true;
            }
            i = i + 1;
        }
        let mut k: usize = 0;
        while k < self.foods.len()
            invariant
                k <= self.foods@.len(),
                forall|j: int| 0 <= j < k ==> self.foods@[j].position != p,
            decreases self.foods@.len() - k,
        {
            if self.foods[k].position == p {
                return true;
            }
            k = k + 1;
        }
        false
    }

    /// The free tiles of the arena, in the order of `positions_available`.
    pub fn get_available_positions_depending_snake_and_food(&self) -> (r: Vec<Position>)
        ensures
            r@ == self.candidates(),
            forall|p: Position| r@.contains(p) <==> self.free_tiles().contains(p),
            self.positions_available@.no_duplicates() ==> r@.no_duplicates(),
    {
        let ghost keep = |p: Position| !self.occupied(p);
        let mut free: Vec<Position> = Vec::new();
        let mut k: usize = 0;
        while k < self.positions_available.len()
            invariant
                k <= self.positions_available@.len(),
                keep == (|p: Position| !self.occupied(p)),
                free@ == self.positions_available@.subrange(0, k as int).filter(keep),
            decreases self.positions_available@.len() - k,
        {
            let p = self.positions_available[k];
            proof {
                assert(self.positions_available@.subrange(0, k + 1)
                    =~= self.positions_available@.subrange(0, k as int).push(p));
                self.positions_available@.subrange(0, k as int).lemma_filter_push(p, keep);
            }
            if !self.is_occupied(p) {
                free.push(p);
            }
            k = k + 1;
        }
        proof {
            assert(self.positions_available@.subrange(0, k as int) =~= self.positions_available@);
            assert forall|p: Position| free@.contains(p) <==> self.free_tiles().contains(p) by {
                lemma_filter_contains_iff(self.positions_available@, keep, p);
            }
            if self.positions_available@.no_duplicates() {
                lemma_filter_no_duplicates(self.positions_available@, keep);
            }
        }
        free
    }

    /// Puts food of kind `kind` on the free tile `position`.
    fn add_food(&mut self, kind: FoodType, position: Position)
        requires
            old(self).wf(),
            old(self).free_tiles().contains(position),
            kind == FoodType::Simple ==> old(self).food_count < FOOD_MAX,
        ensures
            final(self).wf(),
            final(self).foods@ == old(self).foods@.push(spawned_food(kind, position)),
            final(self).food_count == old(self).food_count + if kind == FoodType::Simple {
                1int
            } else {
                0
            },
            final(self).same_except_food(old(self)),
    {
        let bonus_timer = if kind == FoodType::Bonus {
            Some(BonusTimer::default())
        } else {
            None
        };
        let timer = if kind == FoodType::Simple {
            FoodTimer::default()
        } else {
            FoodTimer(Timer::new(SPECIAL_FOOD_LIFETIME, TimerMode::Once))
        };
        let item = FoodItem { food: Food(kind), position, timer, bonus_timer };
        let ghost before = self.foods@;
        self.foods.push(item);
        if kind == FoodType::Simple {
            self.food_count = self.food_count + 1;
        }
        proof {
            assert(self.foods@.drop_last() =~= before);
            assert(!old(self).food_at(position));
            assert forall|i: int, j: int|
                0 <= i < self.foods@.len() && 0 <= j < self.foods@.len() && i != j
                    implies self.foods@[i].position != self.foods@[j].position by {
                if i == before.len() {
                    assert(before[j].position != position);
                } else if j == before.len() {
                    assert(before[i].position != position);
                }
            }
        }
    }

    /// Puts food of kind `kind` on the free tile at `index` among
    /// `candidates()`. Nothing happens once the round is over, when the index
    /// is out of range, or when simple food is asked for while the arena
    /// already holds `FOOD_MAX` of it. Returns where the food went.
    pub fn spawn_food_at(&mut self, kind: FoodType, index: usize) -> (r: Option<Position>)
        requires
            old(self).wf(),
        ensures
            final(self).wf(),
            r == if old(self).outcome.is_none() && index < old(self).candidates().len() && (kind
                == FoodType::Simple ==> old(self).food_count < FOOD_MAX) {
                Some(old(self).candidates()[index as int])
            } else {
                None
            },
            r is None ==> *final(self) == *old(self),
            r matches Some(p) ==> {
                &&& !old(self).occupied(p)
                &&& !old(self).solid_at(p)
                &&& final(self).foods@ == old(self).foods@.push(spawned_food(kind, p))
                &&& final(self).food_count == old(self).food_count + if kind == FoodType::Simple {
                    1int
                } else {
                    0
                }
                &&& final(self).same_except_food(old(self))
            },
    {
        if self.outcome.is_some() || (kind == FoodType::Simple && self.food_count >= FOOD_MAX) {
            return None;
        }
        let free = self.get_available_positions_depending_snake_and_food();
        if index >= free.len() {
            return None;
        }
        let position = free[index];
        proof {
            assert(free@.contains(position));
            lemma_occupancy(self);
        }
        self.add_food(kind, position);
        Some(position)
    }

    /// Puts food of kind `kind` on a free tile drawn at random, each with the
    /// same chance. Nothing happens once the round is over, when no tile is
    /// free, or when simple food is asked for while the arena already holds
    /// `FOOD_MAX` of it. Returns where the food went.
    pub fn spawn_food(&mut self, kind: FoodType) -> (r: Option<Position>)
        requires
            old(self).wf(),
        ensures
            final(self).wf(),
            r is None <==> (old(self).outcome.is_some() || old(self).candidates().len() == 0 || (
            kind == FoodType::Simple && old(self).food_count >= FOOD_MAX)),
            r is None ==> *final(self) == *old(self),
            r matches Some(p) ==> {
                &&& old(self).free_tiles().contains(p)
                &&& !old(self).occupied(p)
                &&& !old(self).solid_at(p)
                &&& final(self).foods@ == old(self).foods@.push(spawned_food(kind, p))
                &&& final(self).food_count == old(self).food_count + if kind == FoodType::Simple {
                    1int
                } else {
                    0
                }
                &&& final(self).same_except_food(old(self))
            },
    {
        if self.outcome.is_some() || (kind == FoodType::Simple && self.food_count >= FOOD_MAX) {
            return None;
        }
        let free = self.get_available_positions_depending_snake_and_food();
        if free.len() == 0 {
            return None;
        }
        let position = get_new_food_position(&free);
        proof {
            lemma_occupancy(self);
        }
        self.add_food(kind, position);
        Some(position)
    }

    /// The periodic attempt at simple food, skipped while `FOOD_MAX` of it
    /// lie on the arena.
    pub fn food_spawn_system(&mut self) -> (r: Option<Position>)
        requires
            old(self).wf(),
        ensures
            final(self).wf(),
            r is None <==> (old(self).outcome.is_some() || old(self).candidates().len() == 0
                || old(self).food_count >= FOOD_MAX),
            r is None ==> *final(self) == *old(self),
            r matches Some(p) ==> {
                &&& old(self).free_tiles().contains(p)
                &&& !old(self).occupied(p)
                &&& !old(self).solid_at(p)
                &&& final(self).foods@ == old(self).foods@.push(
                    spawned_food(FoodType::Simple, p),
                )
                &&& final(self).food_count == old(self).food_count + 1
                &&& final(self).same_except_food(old(self))
            },
    {
        if self.food_count >= FOOD_MAX {
            return None;
        }
        self.spawn_food(FoodType::Simple)
    }

    /// The periodic attempt at gold food, which succeeds one time in three.
    pub fn gold_food_spawn_system(&mut self) -> (r: Option<Position>)
        requires
            old(self).wf(),
        ensures
            final(self).wf(),
            old(self).outcome.is_some() || old(self).candidates().len() == 0 ==> r is None,
            r is None ==> *final(self) == *old(self),
            r matches Some(p) ==> {
                &&& old(self).free_tiles().contains(p)
                &&& !old(self).occupied(p)
                &&& !old(self).solid_at(p)
                &&& final(self).foods@ == old(self).foods@.push(spawned_food(FoodType::Gold, p))
                &&& final(self).food_count == old(self).food_count
                &&& final(self).same_except_food(old(self))
            },
    {
        if !is_lucky(3) {
            return None;
        }
        self.spawn_food(FoodType::Gold)
    }

    /// Whether the snake fills at most three quarters of what it can fill.
    pub fn snake_is_not_too_big(&self) -> (r: bool)
        ensures
            r == (4 * self.snake_size() <= 3 * max_fillable(
                self.game_type.wall_type,
                self.tile_width,
                self.tile_height,
            )),
    {
        let size = 1 + self.snake.body_parts.len() as i128;
        let max = self.max_snake_size();
        4 * size <= 3 * max
    }

    /// The periodic attempt at bonus food: only in a round with obstacles,
    /// while the snake fills at most three quarters of what it can fill, and
    /// then one time in twenty.
    pub fn bonus_food_spawn_system(&mut self) -> (r: Option<Position>)
        requires
            old(self).wf(),
        ensures
            final(self).wf(),
            old(self).outcome.is_some() || old(self).candidates().len() == 0
                || old(self).game_type.wall_type == WITHOUT_WALL || 4 * old(self).snake_size() > 3
                * max_fillable(
                old(self).game_type.wall_type,
                old(self).tile_width,
                old(self).tile_height,
            ) ==> r is None,
            r is None ==> *final(self) == *old(self),
            r matches Some(p) ==> {
                &&& old(self).free_tiles().contains(p)
                &&& !old(self).occupied(p)
                &&& !old(self).solid_at(p)
                &&& final(self).foods@ == old(self).foods@.push(spawned_food(FoodType::Bonus, p))
                &&& final(self).food_count == old(self).food_count
                &&& final(self).same_except_food(old(self))
            },
    {
        if !is_game_with_wall(self.game_type) || !self.snake_is_not_too_big() {
            return None;
        }
        if !is_lucky(20) {
            return None;
        }
        self.spawn_food(FoodType::Bonus)
    }

    /// The index of the food under the head, if any.
    fn food_under_head(&self) -> (r: Option<usize>)
        ensures
            r matches Some(i) ==> i < self.foods@.len() && self.foods@[i as int].position
                == self.head,
            r is None ==> !self.food_at(self.head),
    {
        let mut k: usize = 0;
        while k < self.foods.len()
            invariant
                k <= self.foods@.len(),
                forall|j: int| 0 <= j < k ==> self.foods@[j].position != self.head,
            decreases self.foods@.len() - k,
        {
            if self.foods[k].position == self.head {
                return Some(k);
            }
            k = k + 1;
        }
        None
    }

    /// Eats the food under the head, if any: any food makes the snake grow at
    /// its next step, simple and gold food score, bonus food makes it
    /// invincible.
    /// Bonus food eaten while invincible starts the effect over. Returns the
    /// kind of food eaten.
    pub fn snake_ate_food_system(&mut self) -> (r: Option<FoodType>)
        requires
            old(self).wf(),
        ensures
            final(self).wf(),
            r is None <==> old(self).outcome.is_some() || !old(self).food_at(old(self).head),
            r is None ==> *final(self) == *old(self),
            r matches Some(kind) ==> exists|i: int|
                #[trigger] ate_food(old(self), final(self), i) && old(self).foods@[i].food.0 == kind,
    {
        if self.outcome.is_some() {
            return None;
        }
        let found = self.food_under_head();
        let i = match found {
            Some(i) => i,
            None => {
                return None;
            },
        };
        let ghost before = *self;
        let item = self.foods.remove(i);
        let base: u32 = match item.food.0 {
            FoodType::Simple => get_points(
                item.timer.0.duration / MICROS_PER_SEC,
                item.timer.0.elapsed / MICROS_PER_SEC,
            ),
            FoodType::Gold => GOLD_POINTS,
            FoodType::Bonus => 0,
        };
        proof {
            assert(base <= 10);
            assert((base as int) * (self.game_type.multiplier as int) <= 10 * (u32::MAX as int))
                by (nonlinear_arith)
                requires
                    base <= 10,
                    self.game_type.multiplier <= u32::MAX,
            ;
        }
        proof {
            lemma_count_simple_remove(before.foods@, i as int);
        }
        let gain = (base as u64) * (self.game_type.multiplier as u64);
        let total = self.score as u64 + gain;
        self.score = if total > u32::MAX as u64 { u32::MAX } else { total as u32 };
        match item.food.0 {
            FoodType::Simple => {
                self.food_count = self.food_count - 1;
                self.snake.ate = true;
            },
            FoodType::Gold => {
                self.snake.ate = true;
            },
            FoodType::Bonus => {
                self.snake.ate = true;
                self.snake.invincible = true;
                self.bonus_timer = Some(BonusTimer::activated());
                self.crossing = Some(CrossingObstaclesTimer::default());
            },
        }
        proof {
            assert forall|a: int, b: int|
                0 <= a < self.foods@.len() && 0 <= b < self.foods@.len() && a != b
                    implies self.foods@[a].position != self.foods@[b].position by {
                let a0 = if a < i { a } else { a + 1 };
                let b0 = if b < i { b } else { b + 1 };
                assert(self.foods@[a] == before.foods@[a0]);
                assert(self.foods@[b] == before.foods@[b0]);
            }
            assert forall|a: int| 0 <= a < self.foods@.len() implies (#[trigger] self.foods@[a]).wf() by {
                let a0 = if a < i { a } else { a + 1 };
                assert(self.foods@[a] == before.foods@[a0]);
            }
            assert(ate_food(&before, self, i as int));
        }
        Some(item.food.0)
    }

    /// Ages every food by `delta` microseconds and takes away those whose
    /// lifetime ran out.
    pub fn food_timer_system(&mut self, delta: u64)
        requires
            old(self).wf(),
        ensures
            final(self).wf(),
            final(self).foods@ == foods_after(old(self).foods@, delta),
            final(self).food_count == count_simple(final(self).foods@),
            final(self).same_except_food(old(self)),
    {
        let ghost before = self.foods@;
        let ghost age = |f: FoodItem| food_aged(f, delta);
        let ghost keep = |f: FoodItem| !f.timer.0.finished;
        let n = self.foods.len();
        let mut kept: Vec<FoodItem> = Vec::new();
        let mut count = self.food_count;
        let mut k: usize = 0;
        proof {
            assert(before.subrange(0, n as int) =~= before);
        }
        while k < n
            invariant
                k <= n,
                n == before.len(),
                self.foods@ == before,
                self.wf(),
                age == (|f: FoodItem| food_aged(f, delta)),
                keep == (|f: FoodItem| !f.timer.0.finished),
                kept@ == before.subrange(0, k as int).map_values(age).filter(keep),
                count == count_simple(kept@) + count_simple(before.subrange(k as int, n as int)),
                count <= FOOD_MAX,
                forall|a: int| 0 <= a < kept@.len() ==> (#[trigger] kept@[a]).wf(),
                forall|a: int, m: int|
                    0 <= a < kept@.len() && k <= m < n ==> #[trigger] kept@[a].position
                        != #[trigger] before[m].position,
                forall|a: int, b: int|
                    0 <= a < kept@.len() && 0 <= b < kept@.len() && a != b ==> kept@[a].position
                        != kept@[b].position,
            decreases n - k,
        {
            let item = self.foods[k];
            let mut timer = item.timer.0;
            timer.tick(delta);
            let aged = FoodItem { timer: FoodTimer(timer), ..item };
            proof {
                assert(before.subrange(0, k + 1).map_values(age) =~= before.subrange(
                    0,
                    k as int,
                ).map_values(age).push(aged));
                before.subrange(0, k as int).map_values(age).lemma_filter_push(aged, keep);
                assert(before.subrange(k as int, n as int) =~= seq![item] + before.subrange(
                    k + 1,
                    n as int,
                ));
                lemma_count_simple_append(seq![item], before.subrange(k + 1, n as int));
                reveal_with_fuel(count_simple, 2);
                assert(seq![item].drop_last() =~= Seq::<FoodItem>::empty());
            }
            if timer.finished() {
                if item.food.0 == FoodType::Simple {
                    count = count - 1;
                }
            } else {
                let ghost old_kept = kept@;
                kept.push(aged);
                proof {
                    assert(kept@.drop_last() =~= old_kept);
                    assert forall|a: int, b: int|
                        0 <= a < kept@.len() && 0 <= b < kept@.len() && a != b
                            implies kept@[a].position != kept@[b].position by {
                        if a == old_kept.len() {
                            assert(old_kept[b].position != before[k as int].position);
                        } else if b == old_kept.len() {
                            assert(old_kept[a].position != before[k as int].position);
                        }
                    }
                }
            }
            k = k + 1;
        }
        self.foods = kept;
        self.food_count = count;
        proof {
            assert(before.subrange(n as int, n as int) =~= Seq::<FoodItem>::empty());
        }
    }

    /// Advances the color cycles of the invincible head and of bonus food by
    /// `delta` microseconds.
    pub fn bonus_color_timer_system(&mut self, delta: u64)
        requires
            old(self).wf(),
        ensures
            final(self).wf(),
            final(self).bonus_timer == match old(self).bonus_timer {
                Some(b) => Some(colors_ticked(b, delta)),
                None => None,
            },
            final(self).foods@ == old(self).foods@.map_values(|f: FoodItem| food_colors_ticked(f, delta)),
            final(self).food_count == old(self).food_count,
            final(self).game_type == old(self).game_type,
            final(self).tile_width == old(self).tile_width,
            final(self).tile_height == old(self).tile_height,
            final(self).positions_available == old(self).positions_available,
            final(self).walls == old(self).walls,
            final(self).head == old(self).head,
            final(self).direction == old(self).direction,
            final(self).snake == old(self).snake,
            final(self).crossing == old(self).crossing,
            final(self).score == old(self).score,
            final(self).outcome == old(self).outcome,
    {
        match self.bonus_timer {
            Some(b) => {
                let mut colors = b;
                colors.tick_colors(delta);
                self.bonus_timer = Some(colors);
            },
            None => {},
        }
        let ghost before = self.foods@;
        let n = self.foods.len();
        let mut updated: Vec<FoodItem> = Vec::new();
        let mut k: usize = 0;
        while k < n
            invariant
                k <= n,
                n == before.len(),
                self.foods@ == before,
                forall|a: int| 0 <= a < before.len() ==> (#[trigger] before[a]).wf(),
                updated@ == before.subrange(0, k as int).map_values(
                    |f: FoodItem| food_colors_ticked(f, delta),
                ),
            decreases n - k,
        {
            let item = self.foods[k];
            let bonus_timer = match item.bonus_timer {
                Some(b) => {
                    let mut colors = b;
                    colors.tick_colors(delta);
                    Some(colors)
                },
                None => None,
            };
            updated.push(FoodItem { bonus_timer, ..item });
            proof {
                assert(updated@ =~= before.subrange(0, k + 1).map_values(
                    |f: FoodItem| food_colors_ticked(f, delta),
                ));
            }
            k = k + 1;
        }
        self.foods = updated;
        proof {
            assert(before.subrange(0, n as int) =~= before);
            assert(count_simple(self.foods@) == count_simple(before)) by {
                lemma_count_simple_colors(before, delta);
            }
        }
    }
}

/// Growth: the movement tick that follows eating food of any kind adds
/// exactly one body segment; a movement tick with nothing eaten since the
/// last one keeps the number of segments.
pub proof fn lemma_growth_after_eating(before: &Game, fed: &Game, i: int, after: &Game)
    requires
        ate_food(before, fed, i),
        movement_step(fed, after),
    ensures
        after.body().len() == before.body().len() + 1,
{
}

/// See `lemma_growth_after_eating`.
pub proof fn lemma_no_growth_without_eating(before: &Game, after: &Game)
    requires
        !before.snake.ate,
        movement_step(before, after),
    ensures
        after.body().len() == before.body().len(),
{
}

/// `new` is `old` after the eating step of a frame of a running round: the
/// food under the head is eaten, and nothing changes where there is none.
pub open spec fn eat_step(old: Game, new: Game) -> bool {
    if old.food_at(old.head) {
        exists|i: int| #[trigger] ate_food(&old, &new, i)
    } else {
        new == old
    }
}

/// `new` is `timed` after the food and color timers of a frame of `delta`
/// microseconds: food ages and expires, then the color cycles of the bonus
/// food and of the running effect move on.
pub open spec fn timers_step(timed: Game, new: Game, delta: u64) -> bool {
    &&& new.foods@ == foods_after(timed.foods@, delta).map_values(
        |f: FoodItem| food_colors_ticked(f, delta),
    )
    &&& new.food_count == count_simple(foods_after(timed.foods@, delta))
    &&& new.bonus_timer == match timed.bonus_timer {
        Some(b) => Some(colors_ticked(b, delta)),
        None => None,
    }
    &&& new.game_type == timed.game_type
    &&& new.tile_width == timed.tile_width
    &&& new.tile_height == timed.tile_height
    &&& new.positions_available == timed.positions_available
    &&& new.walls == timed.walls
    &&& new.head == timed.head
    &&& new.direction == timed.direction
    &&& new.snake == timed.snake
    &&& new.crossing == timed.crossing
    &&& new.score == timed.score
    &&& new.outcome == timed.outcome
}

/// `item` with its color cycle `delta` microseconds further on.
pub open spec fn food_colors_ticked(item: FoodItem, delta: u64) -> FoodItem {
    FoodItem {
        bonus_timer: match item.bonus_timer {
            Some(b) => Some(colors_ticked(b, delta)),
            None => None,
        },
        ..item
    }
}

proof fn lemma_count_simple_colors(foods: Seq<FoodItem>, delta: u64)
    ensures
        count_simple(foods.map_values(|f: FoodItem| food_colors_ticked(f, delta))) == count_simple(
            foods,
        ),
    decreases foods.len(),
{
    if foods.len() > 0 {
        assert(foods.map_values(|f: FoodItem| food_colors_ticked(f, delta)).drop_last()
            =~= foods.drop_last().map_values(|f: FoodItem| food_colors_ticked(f, delta)));
        lemma_count_simple_colors(foods.drop_last(), delta);
    }
}

/// `new` is `old` after eating the food at index `i`, which lay under the
/// head.
pub open spec fn ate_food(old: &Game, new: &Game, i: int) -> bool {
    let item = old.foods@[i];
    &&& 0 <= i < old.foods@.len()
    &&& item.position == old.head
    &&& new.foods@ == old.foods@.remove(i)
    &&& new.score == saturate_u32(old.score + base_points(item) * old.game_type.multiplier)
    &&& new.food_count == old.food_count - if item.food.0 == FoodType::Simple {
        1int
    } else {
        0
    }
    &&& new.snake.moved == old.snake.moved
    &&& new.snake.body_parts == old.snake.body_parts
    &&& new.snake.ate
    &&& if item.food.0 == FoodType::Bonus {
        &&& new.snake.invincible
        &&& new.bonus_timer == Some(
            BonusTimer {
                color_timer: Timer::spec_new(blink_period(0), TimerMode::Repeating),
                index_color: 0,
                life_timer: Some(Timer::spec_new(phase_duration(0), TimerMode::Once)),
                life_cycle: 0,
            },
        )
        &&& new.crossing == Some(CrossingObstaclesTimer(None, false, false))
    } else {
        &&& new.snake.invincible == old.snake.invincible
        &&& new.bonus_timer == old.bonus_timer
        &&& new.crossing == old.crossing
    }
    &&& new.game_type == old.game_type
    &&& new.tile_width == old.tile_width
    &&& new.tile_height == old.tile_height
    &&& new.positions_available == old.positions_available
    &&& new.walls == old.walls
    &&& new.head == old.head
    &&& new.direction == old.direction
    &&& new.outcome == old.outcome
}

} // verus!
