//! Projection of the world to a character grid, one row per line of the
//! display: a pure function of the state, so every frame of an unchanged
//! state looks the same.

use vstd::prelude::*;
use crate::geometry::Point;
use crate::game::GameState;

verus! {

/// What one cell shows: the snake wins over food, food over background.
pub open spec fn cell_char(s: GameState, p: Point) -> char {
    if s.snake.body@.contains(p) {
        '@'
    } else if s.food@.contains(p) {
        'F'
    } else {
        '.'
    }
}

/// The grid is the full projection of the state: one row per grid line,
/// one character per cell, each the cell's own character.
pub open spec fn grid_matches(s: GameState, grid: Seq<Seq<char>>) -> bool {
    &&& grid.len() == s.bounds.height
    &&& forall|y: int| 0 <= y < grid.len() ==> (#[trigger] grid[y]).len() == s.bounds.width
    &&& forall|y: int, x: int|
        0 <= y < s.bounds.height && 0 <= x < s.bounds.width ==> #[trigger] grid[y][x]
            == cell_char(s, Point { x: x as usize, y: y as usize })
}

/// The view of an executable grid: each row as a sequence of characters.
pub open spec fn grid_view(grid: Vec<Vec<char>>) -> Seq<Seq<char>> {
    grid@.map_values(|row: Vec<char>| row@)
}

impl GameState {
    /// Projects the world to a full `width x height` character grid:
    /// `'@'` on the snake's body, `'F'` on a food cell, `'.'` elsewhere.
    pub fn project(&self) -> (grid: Vec<Vec<char>>)
        ensures
            grid_matches(*self, grid_view(grid)),
    {
        let h = self.bounds.height;
        let w = self.bounds.width;
        let mut grid: Vec<Vec<char>> = Vec::new();
        let mut y: usize = 0;
        while y < h
            invariant
                h == self.bounds.height,
                w == self.bounds.width,
                y <= h,
                grid@.len() == y,
                forall|r: int| 0 <= r < y ==> (#[trigger] grid@[r])@.len() == w,
                forall|r: int, c: int|
                    0 <= r < y && 0 <= c < w ==> #[trigger] grid@[r]@[c] == cell_char(
                        *self,
                        Point { x: c as usize, y: r as usize },
                    ),
            decreases h - y,
        {
            let mut row: Vec<char> = Vec::new();
            let mut x: usize = 0;
            while x < w
                invariant
                    h == self.bounds.height,
                    w == self.bounds.width,
                    y < h,
                    x <= w,
                    row@.len() == x,
                    forall|c: int|
                        0 <= c < x ==> #[trigger] row@[c] == cell_char(
                            *self,
                            Point { x: c as usize, y: y as usize },
                        ),
                decreases w - x,
            {
                let p = Point { x, y };
                let ch = if self.snake.occupies(p) {
                    '@'
                } else if self.has_food_at(p) {
                    'F'
                } else {
                    '.'
                };
                row.push(ch);
                x += 1;
            }
            grid.push(row);
            y += 1;
        }
        grid
    }
}

/// Rendering is idempotent: any two grids projected from the same state are
/// identical, because the projection is a function of the state alone.
pub proof fn lemma_project_deterministic(s: GameState, g1: Seq<Seq<char>>, g2: Seq<Seq<char>>)
    requires
        grid_matches(s, g1),
        grid_matches(s, g2),
    ensures
        g1 == g2,
{
    assert forall|y: int| 0 <= y < g1.len() implies g1[y] == g2[y] by {
        assert forall|x: int| 0 <= x < g1[y].len() implies g1[y][x] == g2[y][x] by {
            assert(g1[y][x] == cell_char(s, Point { x: x as usize, y: y as usize }));
            assert(g2[y][x] == cell_char(s, Point { x: x as usize, y: y as usize }));
        }
        assert(g1[y] =~= g2[y]);
    }
    assert(g1 =~= g2);
}

} // verus!
