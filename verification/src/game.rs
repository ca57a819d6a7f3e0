//! The game state machine: the world aggregate, the tick transition
//! (movement, collision, food consumption and bounded replenishment),
//! the input mapper and the loop decision.

use vstd::prelude::*;
use std::collections::VecDeque;
use crate::geometry::{Bounds, Direction, Point, in_interior, manhattan, on_boundary, step,
    step_spec};
use crate::snake::Snake;
use crate::rng::sample_below;

verus! {

/// Most food cells the field ever holds at once.
pub const MAX_FOOD: usize = 15;

/// How many food cells one replenishment tries to add.
pub const SPAWN_COUNT: usize = 5;

/// Wall-clock milliseconds between two committed ticks.
pub const TICK_INTERVAL_MS: u64 = 100;

/// Random placements tried per food cell before falling back to a
/// deterministic scan of the field.
pub const SPAWN_TRIES: usize = 32;

/// What one tick did to the world.
#[derive(Clone, Copy, Debug, PartialEq, Eq, Structural)]
pub enum Outcome {
    /// The candidate head hit a wall or the body; the run is over.
    Collision,
    /// The candidate head landed on a food cell; the snake grew.
    FoodEaten,
    /// An ordinary move: new head in front, tail gone.
    Moved,
}

/// A raw input event, already reduced to what the game distinguishes.
#[derive(Clone, Copy, Debug, PartialEq, Eq, Structural)]
pub enum InputSignal {
    Up,
    Down,
    Left,
    Right,
    Quit,
    Other,
}

/// What the driving loop does next.
#[derive(Clone, Copy, Debug, PartialEq, Eq, Structural)]
pub enum LoopAction {
    /// The termination flag is set: leave the loop, mutate nothing further.
    Exit,
    /// The tick interval has elapsed: commit exactly one tick.
    Tick,
    /// Keep rendering and polling; no tick is due.
    Idle,
}

/// The whole world: snake, food, field, and the termination flag.
pub struct GameState {
    pub snake: Snake,
    pub food: Vec<Point>,
    pub max_food: usize,
    pub bounds: Bounds,
    pub should_exit: bool,
}

/// The heading after one input signal: a direction key overwrites the
/// heading unconditionally, anything else leaves it alone.
pub open spec fn heading_after(signal: InputSignal, d: Direction) -> Direction {
    match signal {
        InputSignal::Up => Direction::Up,
        InputSignal::Down => Direction::Down,
        InputSignal::Left => Direction::Left,
        InputSignal::Right => Direction::Right,
        InputSignal::Quit => d,
        InputSignal::Other => d,
    }
}

impl GameState {
    /// The food invariant: never over capacity, every cell inside the walls,
    /// no cell listed twice, none under the snake.
    pub open spec fn food_wf(self) -> bool {
        &&& self.food@.len() <= MAX_FOOD
        &&& forall|i: int|
            0 <= i < self.food@.len() ==> in_interior(#[trigger] self.food@[i], self.bounds)
        &&& forall|i: int, j: int|
            0 <= i < j < self.food@.len() ==> self.food@[i] != self.food@[j]
        &&& forall|i: int|
            0 <= i < self.food@.len() ==> !self.snake.body@.contains(#[trigger] self.food@[i])
    }

    /// Well-formedness of the whole world.
    pub open spec fn wf(self) -> bool {
        &&& self.bounds.width >= 4
        &&& self.bounds.height >= 4
        &&& self.max_food == MAX_FOOD
        &&& self.snake.wf(self.bounds)
        &&& self.food_wf()
    }

    /// The cell the head would move to on the next tick.
    pub open spec fn candidate_spec(self) -> Point {
        step_spec(self.snake.head_spec(), self.snake.direction)
    }

    /// The next tick ends the run: the candidate head lies on the boundary
    /// ring or on a current body segment.
    pub open spec fn tick_collides(self) -> bool {
        ||| on_boundary(self.candidate_spec(), self.bounds)
        ||| self.snake.body@.contains(self.candidate_spec())
    }

    /// The next tick eats: no collision, and the candidate head is food.
    pub open spec fn tick_eats(self) -> bool {
        &&& !self.tick_collides()
        &&& self.food@.contains(self.candidate_spec())
    }

    /// Builds the starting world: a one-segment snake at the centre of the
    /// field heading right, and one food cell near the upper-left third.
    pub fn new(bounds: Bounds) -> (s: GameState)
        requires
            bounds.width >= 4,
            bounds.height >= 4,
        ensures
            s.wf(),
            s.bounds == bounds,
            s.max_food == MAX_FOOD,
            !s.should_exit,
            s.snake.direction == Direction::Right,
            s.snake.body@ == seq![Point { x: bounds.width / 2, y: bounds.height / 2 }],
            s.food@ == seq![Point { x: bounds.width / 3, y: bounds.height / 3 }],
    {
        let centre = Point { x: bounds.width / 2, y: bounds.height / 2 };
        let seed = Point { x: bounds.width / 3, y: bounds.height / 3 };
        let mut body: VecDeque<Point> = VecDeque::new();
        body.push_front(centre);
        let mut food: Vec<Point> = Vec::new();
        food.push(seed);
        let s = GameState {
            snake: Snake { body, direction: Direction::Right },
            food,
            max_food: MAX_FOOD,
            bounds,
            should_exit: false,
        };
        proof {
            assert(s.snake.body@ =~= seq![centre]);
            assert(s.food@ =~= seq![seed]);
            assert(in_interior(centre, bounds));
            assert(in_interior(seed, bounds));
            assert(centre != seed);
            assert(!s.snake.body@.contains(seed)) by {
                assert(s.snake.body@[0] == centre);
            }
        }
        s
    }

    /// Applies one input signal: direction keys steer, a quit signal sets
    /// the termination flag at once, anything else is ignored.
    pub fn on_key(&mut self, signal: InputSignal)
        ensures
            final(self).snake.body@ == old(self).snake.body@,
            final(self).food@ == old(self).food@,
            final(self).bounds == old(self).bounds,
            final(self).max_food == old(self).max_food,
            final(self).snake.direction == heading_after(signal, old(self).snake.direction),
            final(self).should_exit == (old(self).should_exit || signal == InputSignal::Quit),
            old(self).wf() ==> final(self).wf(),
    {
        match signal {
            InputSignal::Up => {
                self.snake.direction = Direction::Up;
            },
            InputSignal::Down => {
                self.snake.direction = Direction::Down;
            },
            InputSignal::Left => {
                self.snake.direction = Direction::Left;
            },
            InputSignal::Right => {
                self.snake.direction = Direction::Right;
            },
            InputSignal::Quit => {
                self.should_exit = true;
            },
            InputSignal::Other => {},
        }
    }
}

/// Returns an index holding `p` in `food`, if there is one.
fn food_index(food: &Vec<Point>, p: Point) -> (r: Option<usize>)
    ensures
        match r {
            Some(i) => i < food@.len() && food@[i as int] == p,
            None => !food@.contains(p),
        },
{
    let n = food.len();
    let mut k: usize = 0;
    while k < n
        invariant
            n == food@.len(),
            k <= n,
            forall|j: int| 0 <= j < k ==> food@[j] != p,
        decreases n - k,
    {
        if food[k] == p {
            return Some(k);
        }
        k += 1;
    }
    assert(!food@.contains(p)) by {
        assert(forall|j: int| 0 <= j < food@.len() ==> food@[j] != p);
    }
    None
}

impl GameState {
    /// Returns whether some food cell occupies `p`.
    pub fn has_food_at(&self, p: Point) -> (r: bool)
        ensures
            r == self.food@.contains(p),
    {
        match food_index(&self.food, p) {
            Some(i) => {
                assert(self.food@.contains(p)) by {
                    assert(self.food@[i as int] == p);
                }
                true
            },
            None => false,
        }
    }

    /// Looks for a cell inside the walls that neither the snake nor the food
    /// occupies: first by bounded random sampling, then, if unlucky, by a
    /// deterministic scan of the whole field, so that `None` comes back only
    /// when no free cell exists at all.
    fn find_free_cell(&self) -> (r: Option<Point>)
        requires
            self.wf(),
        ensures
            match r {
                Some(p) => {
                    &&& in_interior(p, self.bounds)
                    &&& !self.snake.body@.contains(p)
                    &&& !self.food@.contains(p)
                },
                None => forall|p: Point|
                    in_interior(p, self.bounds) ==> self.snake.body@.contains(p)
                        || self.food@.contains(p),
            },
    {
        let w = self.bounds.width;
        let h = self.bounds.height;
        let mut tries: usize = 0;
        while tries < SPAWN_TRIES
            invariant
                self.wf(),
                w == self.bounds.width,
                h == self.bounds.height,
            decreases SPAWN_TRIES - tries,
        {
            let cx = 1 + sample_below(w - 2);
            let cy = 1 + sample_below(h - 2);
            let p = Point { x: cx, y: cy };
            if !self.snake.occupies(p) && !self.has_food_at(p) {
                return Some(p);
            }
            tries += 1;
        }
        let mut y: usize = 1;
        while y < h - 1
            invariant
                self.wf(),
                w == self.bounds.width,
                h == self.bounds.height,
                1 <= y <= h - 1,
                forall|p: Point|
                    in_interior(p, self.bounds) && p.y < y ==> self.snake.body@.contains(p)
                        || self.food@.contains(p),
            decreases h - 1 - y,
        {
            let mut x: usize = 1;
            while x < w - 1
                invariant
                    self.wf(),
                    w == self.bounds.width,
                    h == self.bounds.height,
                    1 <= y < h - 1,
                    1 <= x <= w - 1,
                    forall|p: Point|
                        in_interior(p, self.bounds) && p.y < y ==> self.snake.body@.contains(p)
                            || self.food@.contains(p),
                    forall|p: Point|
                        in_interior(p, self.bounds) && p.y == y && p.x < x
                            ==> self.snake.body@.contains(p) || self.food@.contains(p),
                decreases w - 1 - x,
            {
                let p = Point { x, y };
                if !self.snake.occupies(p) && !self.has_food_at(p) {
                    return Some(p);
                }
                assert(forall|q: Point|
                    in_interior(q, self.bounds) && q.y == y && q.x < x + 1
                        ==> self.snake.body@.contains(q) || self.food@.contains(q)) by {
                    assert(forall|q: Point|
                        q.y == y && q.x == x ==> q == (Point { x, y }));
                }
                x += 1;
            }
            y += 1;
        }
        None
    }

    /// Replenishment: adds up to `count` food cells, never past capacity,
    /// each on a free cell inside the walls. The request is honoured in full
    /// unless the field has no free cell left for some slot; the snake and
    /// everything else stay untouched, and no placed cell is ever taken away.
    pub fn spawn_food(&mut self, count: usize)
        requires
            old(self).wf(),
        ensures
            final(self).wf(),
            final(self).snake.body@ == old(self).snake.body@,
            final(self).snake.direction == old(self).snake.direction,
            final(self).bounds == old(self).bounds,
            final(self).max_food == old(self).max_food,
            final(self).should_exit == old(self).should_exit,
            old(self).food@.is_prefix_of(final(self).food@),
            final(self).food@.len() <= old(self).food@.len() + count,
            final(self).food@.len() <= MAX_FOOD,
            forall|i: int|
                0 <= i < final(self).food@.len() ==> !final(self).snake.body@.contains(
                    #[trigger] final(self).food@[i],
                ),
            forall|i: int, j: int|
                0 <= i < j < final(self).food@.len() ==> final(self).food@[i]
                    != final(self).food@[j],
            (count == 0 || old(self).food@.len() >= MAX_FOOD) ==> final(self).food@
                == old(self).food@,
            final(self).food@.len() == vstd::math::min(
                old(self).food@.len() + count as int,
                MAX_FOOD as int,
            ) || (forall|p: Point|
                in_interior(p, old(self).bounds) ==> old(self).snake.body@.contains(p)
                    || final(self).food@.contains(p)),
    {
        let remaining = self.max_food - self.food.len();
        let budget = if count < remaining {
            count
        } else {
            remaining
        };
        let mut spawned: usize = 0;
        let mut exhausted = false;
        while spawned < budget && !exhausted
            invariant
                self.wf(),
                self.snake.body@ == old(self).snake.body@,
                self.snake.direction == old(self).snake.direction,
                self.bounds == old(self).bounds,
                self.max_food == old(self).max_food,
                self.should_exit == old(self).should_exit,
                spawned <= budget,
                budget <= count,
                old(self).food@.len() + budget <= MAX_FOOD,
                old(self).food@.is_prefix_of(self.food@),
                self.food@.len() == old(self).food@.len() + spawned,
                exhausted ==> forall|p: Point|
                    in_interior(p, self.bounds) ==> self.snake.body@.contains(p)
                        || self.food@.contains(p),
            decreases budget - spawned, (if exhausted { 0int } else { 1int }),
        {
            match self.find_free_cell() {
                Some(p) => {
                    let ghost before = self.food@;
                    self.food.push(p);
                    proof {
                        assert(before.is_prefix_of(self.food@)) by {
                            assert(self.food@.subrange(0, before.len() as int) =~= before);
                        }
                        assert(old(self).food@.is_prefix_of(self.food@)) by {
                            assert(self.food@.subrange(0, old(self).food@.len() as int)
                                =~= before.subrange(0, old(self).food@.len() as int));
                        }
                        assert(self.food_wf()) by {
                            assert(forall|i: int|
                                0 <= i < before.len() ==> self.food@[i] == before[i]);
                            assert(self.food@[before.len() as int] == p);
                        }
                    }
                    spawned += 1;
                },
                None => {
                    exhausted = true;
                },
            }
        }
        proof {
            if !exhausted {
                assert(spawned == budget);
                assert(self.food@.len() == vstd::math::min(
                    old(self).food@.len() + count as int,
                    MAX_FOOD as int,
                ));
            }
        }
    }

    /// Advances the world by exactly one tick.
    ///
    /// The head's candidate cell is one step ahead in the current heading.
    /// If it lies on the boundary ring or on the body, the outcome is a
    /// collision: the termination flag is set and nothing else changes. If
    /// it holds food, that cell is eaten: the head grows onto it, the tail
    /// stays, and a bounded replenishment runs. Otherwise the snake simply
    /// moves: new head in front, tail popped, length unchanged.
    pub fn on_tick(&mut self) -> (outcome: Outcome)
        requires
            old(self).wf(),
        ensures
            final(self).wf(),
            final(self).bounds == old(self).bounds,
            final(self).max_food == old(self).max_food,
            final(self).snake.direction == old(self).snake.direction,
            (outcome == Outcome::Collision) == old(self).tick_collides(),
            (outcome == Outcome::FoodEaten) == old(self).tick_eats(),
            outcome == Outcome::Collision ==> {
                &&& final(self).should_exit
                &&& final(self).snake.body@ == old(self).snake.body@
                &&& final(self).food@ == old(self).food@
            },
            outcome != Outcome::Collision ==> {
                &&& final(self).should_exit == old(self).should_exit
                &&& final(self).snake.body@[0] == old(self).candidate_spec()
                &&& manhattan(old(self).snake.head_spec(), final(self).snake.body@[0]) == 1
            },
            outcome == Outcome::Moved ==> {
                &&& final(self).snake.body@ == seq![old(self).candidate_spec()]
                    + old(self).snake.body@.drop_last()
                &&& final(self).snake.body@.len() == old(self).snake.body@.len()
                &&& final(self).food@ == old(self).food@
            },
            outcome == Outcome::FoodEaten ==> {
                &&& final(self).snake.body@ == seq![old(self).candidate_spec()]
                    + old(self).snake.body@
                &&& final(self).snake.body@.len() == old(self).snake.body@.len() + 1
                &&& !final(self).food@.contains(old(self).candidate_spec())
                &&& forall|q: Point|
                    old(self).food@.contains(q) && q != old(self).candidate_spec()
                        ==> final(self).food@.contains(q)
                &&& final(self).food@.len() <= old(self).food@.len() - 1 + SPAWN_COUNT
                &&& final(self).food@.len() == vstd::math::min(
                    old(self).food@.len() - 1 + SPAWN_COUNT as int,
                    MAX_FOOD as int,
                ) || (forall|p: Point|
                    in_interior(p, old(self).bounds) ==> final(self).snake.body@.contains(p)
                        || final(self).food@.contains(p))
            },
            final(self).snake.body@.len() >= old(self).snake.body@.len(),
            final(self).food@.len() <= MAX_FOOD,
    {
        let head = self.snake.head();
        let cand = step(head, self.snake.direction);
        let hit_self = self.snake.occupies(cand);
        let w = self.bounds.width;
        let h = self.bounds.height;
        if hit_self || cand.x == 0 || cand.y == 0 || cand.x == w - 1 || cand.y == h - 1 {
            self.should_exit = true;
            return Outcome::Collision;
        }
        assert(in_interior(cand, self.bounds));
        match food_index(&self.food, cand) {
            Some(i) => {
                let ghost food_before = self.food@;
                self.food.remove(i);
                proof {
                    assert(self.food@ == food_before.remove(i as int));
                    assert(forall|k: int|
                        0 <= k < self.food@.len() ==> self.food@[k] == (if k < i {
                            food_before[k]
                        } else {
                            food_before[k + 1]
                        }));
                    assert(!self.food@.contains(cand)) by {
                        assert forall|k: int| 0 <= k < self.food@.len() implies self.food@[k]
                            != cand by {
                            if k < i {
                                assert(food_before[k] != food_before[i as int]);
                            } else {
                                assert(food_before[k + 1] != food_before[i as int]);
                            }
                        }
                    }
                }
                let ghost body_before = self.snake.body@;
                self.snake.body.push_front(cand);
                proof {
                    assert(self.snake.body@ == seq![cand] + body_before);
                    assert(self.snake.body@[0] == cand);
                    assert(forall|k: int|
                        1 <= k < self.snake.body@.len() ==> self.snake.body@[k] == body_before[k - 1]);
                    assert(self.snake.wf(self.bounds)) by {
                        assert(manhattan(cand, body_before[0]) == manhattan(
                            old(self).snake.head_spec(),
                            cand,
                        ));
                        assert(forall|k: int|
                            0 <= k < body_before.len() ==> body_before[k] != cand) by {
                            assert(!body_before.contains(cand));
                        }
                    }
                    assert(self.food_wf()) by {
                        assert forall|k: int| 0 <= k < self.food@.len() implies !self
                            .snake.body@.contains(#[trigger] self.food@[k]) by {
                            assert(food_before.contains(self.food@[k]));
                            assert(!body_before.contains(self.food@[k]));
                            assert(self.food@[k] != cand);
                            if self.snake.body@.contains(self.food@[k]) {
                                let m = choose|m: int|
                                    0 <= m < self.snake.body@.len() && self.snake.body@[m]
                                        == self.food@[k];
                                assert(m >= 1);
                                assert(body_before[m - 1] == self.food@[k]);
                            }
                        }
                    }
                }
                self.spawn_food(SPAWN_COUNT);
                proof {
                    assert(!self.food@.contains(cand)) by {
                        if self.food@.contains(cand) {
                            let m = choose|m: int|
                                0 <= m < self.food@.len() && self.food@[m] == cand;
                            assert(!self.snake.body@.contains(self.food@[m]));
                            assert(self.snake.body@[0] == cand);
                        }
                    }
                    assert(forall|q: Point|
                        food_before.contains(q) && q != cand ==> self.food@.contains(q)) by {
                        assert forall|q: Point|
                            food_before.contains(q) && q != cand implies self.food@.contains(
                            q,
                        ) by {
                            let m = choose|m: int|
                                0 <= m < food_before.len() && food_before[m] == q;
                            let removed = food_before.remove(i as int);
                            assert(removed.contains(q)) by {
                                if m < i {
                                    assert(removed[m] == q);
                                } else {
                                    assert(m > i);
                                    assert(removed[m - 1] == q);
                                }
                            }
                            let n = choose|n: int| 0 <= n < removed.len() && removed[n] == q;
                            assert(removed.is_prefix_of(self.food@));
                            assert(self.food@[n] == q);
                        }
                    }
                }
                Outcome::FoodEaten
            },
            None => {
                let ghost body_before = self.snake.body@;
                self.snake.body.pop_back();
                self.snake.body.push_front(cand);
                proof {
                    let trimmed = body_before.drop_last();
                    assert(self.snake.body@ == seq![cand] + trimmed);
                    assert(forall|k: int|
                        1 <= k < self.snake.body@.len() ==> self.snake.body@[k] == body_before[k - 1]);
                    assert(self.snake.wf(self.bounds)) by {
                        assert(forall|k: int|
                            0 <= k < trimmed.len() ==> trimmed[k] == body_before[k]);
                        if trimmed.len() >= 1 {
                            assert(manhattan(cand, trimmed[0]) == manhattan(
                                old(self).snake.head_spec(),
                                cand,
                            ));
                        }
                        assert(forall|k: int|
                            0 <= k < body_before.len() ==> body_before[k] != cand) by {
                            assert(!body_before.contains(cand));
                        }
                    }
                    assert(self.food_wf()) by {
                        assert forall|k: int| 0 <= k < self.food@.len() implies !self
                            .snake.body@.contains(#[trigger] self.food@[k]) by {
                            assert(!old(self).snake.body@.contains(self.food@[k]));
                            assert(!self.food@.contains(cand));
                            assert(self.food@[k] != cand);
                            if self.snake.body@.contains(self.food@[k]) {
                                let m = choose|m: int|
                                    0 <= m < self.snake.body@.len() && self.snake.body@[m]
                                        == self.food@[k];
                                assert(m >= 1);
                                assert(body_before[m - 1] == self.food@[k]);
                                assert(body_before.contains(self.food@[k]));
                            }
                        }
                    }
                }
                Outcome::Moved
            },
        }
    }
}

/// Decides what the driving loop does next: a set termination flag wins
/// over everything, otherwise a tick is committed exactly when the tick
/// interval has elapsed since the last committed tick.
pub fn next_action(should_exit: bool, elapsed_ms: u64) -> (a: LoopAction)
    ensures
        should_exit ==> a == LoopAction::Exit,
        !should_exit && elapsed_ms >= TICK_INTERVAL_MS ==> a == LoopAction::Tick,
        !should_exit && elapsed_ms < TICK_INTERVAL_MS ==> a == LoopAction::Idle,
{
    if should_exit {
        LoopAction::Exit
    } else if elapsed_ms >= TICK_INTERVAL_MS {
        LoopAction::Tick
    } else {
        LoopAction::Idle
    }
}

} // verus!
