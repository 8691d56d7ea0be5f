use vstd::prelude::*;

verus! {

use crate::popup::Popup;
use crate::popup::popups_after_update;
use crate::screen::InputEvent;
use crate::screen::Key;
use crate::screen::ScreenState;

/// Smallest grid coordinate; the ring at this value is impassable.
pub const GRID_MIN: i32 = -5;

/// Largest grid coordinate; the ring at this value is impassable.
pub const GRID_MAX: i32 = 5;

/// Fixed number of pixels per grid cell.
pub const GRID_SCALE: i32 = 30;

/// How many update ticks a boundary popup stays on screen.
pub const BOUNDARY_POPUP_TICKS: u32 = 2;

/// One of the four cardinal directions the player can face.
#[derive(Clone, Copy, PartialEq, Eq, Structural, Debug)]
pub enum Direction {
    Up,
    Down,
    Left,
    Right,
}

impl Direction {
    /// The on-screen label for this facing.
    pub fn to_string(&self) -> (r: &'static str)
        ensures
            match *self {
                Direction::Up => r@ == "FACING: UP"@,
                Direction::Down => r@ == "FACING: DOWN"@,
                Direction::Left => r@ == "FACING: LEFT"@,
                Direction::Right => r@ == "FACING: RIGHT"@,
            },
    {
        match self {
            Direction::Up => "FACING: UP",
            Direction::Down => "FACING: DOWN",
            Direction::Left => "FACING: LEFT",
            Direction::Right => "FACING: RIGHT",
        }
    }
}

/// A cell occupant: the player (movable, with a facing) or a static
/// obstacle (immovable, no facing).
#[derive(Clone, Copy, Debug)]
pub struct Point {
    pub x: i32,
    pub y: i32,
    pub movable: bool,
    pub facing: Option<Direction>,
}

/// The facing after a move attempt with step `(dx, dy)`: an axis-aligned
/// unit step turns the player that way; any other vector keeps the
/// previous facing, defaulting to Right.
pub open spec fn facing_after(prev: Option<Direction>, dx: int, dy: int) -> Direction {
    if dx == 0 && dy == 1 {
        Direction::Up
    } else if dx == 0 && dy == -1 {
        Direction::Down
    } else if dx == -1 && dy == 0 {
        Direction::Left
    } else if dx == 1 && dy == 0 {
        Direction::Right
    } else {
        match prev {
            Some(d) => d,
            None => Direction::Right,
        }
    }
}

/// A candidate cell on or outside the outermost ring is rejected.
pub open spec fn blocked_by_boundary(x: int, y: int) -> bool {
    x <= GRID_MIN || x >= GRID_MAX || y <= GRID_MIN || y >= GRID_MAX
}

/// Whether some obstacle occupies cell `(x, y)`; only coordinates count.
pub open spec fn has_obstacle_at(obs: Seq<Point>, x: int, y: int) -> bool {
    exists|i: int| 0 <= i < obs.len() && obs[i].x == x && obs[i].y == y
}

/// The cells occupied by obstacles right after construction: the full
/// boundary ring plus the four interior corners at (+-2, +-2).
pub open spec fn initial_obstacle_cell(x: int, y: int) -> bool {
    ||| (GRID_MIN <= x <= GRID_MAX && (y == GRID_MIN || y == GRID_MAX))
    ||| (GRID_MIN <= y <= GRID_MAX && (x == GRID_MIN || x == GRID_MAX))
    ||| ((x == 2 || x == -2) && (y == 2 || y == -2))
}

/// The popup a rejected boundary move leaves behind.
pub open spec fn is_boundary_popup(p: Popup) -> bool {
    &&& p.message@ == "Boundary in the way"@
    &&& p.remaining == BOUNDARY_POPUP_TICKS
    &&& p.active
}

/// Everything `try_move_player(dx, dy)` does: facing always turns to the
/// attempted direction; a candidate on or beyond the boundary is rejected
/// with exactly one boundary popup appended; a candidate on an obstacle is
/// rejected silently; otherwise the player moves to the candidate cell.
pub open spec fn move_effect(pre: GameScreen, post: GameScreen, dx: int, dy: int) -> bool {
    let nx = pre.player.x + dx;
    let ny = pre.player.y + dy;
    &&& post.obstacles@ == pre.obstacles@
    &&& post.grid_scale == pre.grid_scale
    &&& post.player.movable == pre.player.movable
    &&& post.player.facing == Some(facing_after(pre.player.facing, dx, dy))
    &&& if blocked_by_boundary(nx, ny) {
        &&& post.player.x == pre.player.x
        &&& post.player.y == pre.player.y
        &&& post.popups@.len() == pre.popups@.len() + 1
        &&& post.popups@.drop_last() == pre.popups@
        &&& is_boundary_popup(post.popups@.last())
    } else if has_obstacle_at(pre.obstacles@, nx, ny) {
        &&& post.player.x == pre.player.x
        &&& post.player.y == pre.player.y
        &&& post.popups@ == pre.popups@
    } else {
        &&& post.player.x == nx
        &&& post.player.y == ny
        &&& post.popups@ == pre.popups@
    }
}

/// An update pass leaves everything but the popup list alone and advances
/// the popups by one tick, dropping the expired ones.
pub open spec fn game_update_effect(pre: GameScreen, post: GameScreen) -> bool {
    &&& post.player == pre.player
    &&& post.obstacles@ == pre.obstacles@
    &&& post.grid_scale == pre.grid_scale
    &&& post.popups@ == popups_after_update(pre.popups@)
}

/// Nothing observable about the game screen changed.
pub open spec fn game_unchanged(pre: GameScreen, post: GameScreen) -> bool {
    &&& post.player == pre.player
    &&& post.obstacles@ == pre.obstacles@
    &&& post.grid_scale == pre.grid_scale
    &&& post.popups@ == pre.popups@
}

/// How the game screen reacts to an input event: W/S/A/D issue unit moves
/// along +y/-y/-x/+x; everything else leaves the screen unchanged.
pub open spec fn game_input_effect(pre: GameScreen, post: GameScreen, e: InputEvent) -> bool {
    match e {
        InputEvent::KeyPress(Key::W) => move_effect(pre, post, 0, 1),
        InputEvent::KeyPress(Key::S) => move_effect(pre, post, 0, -1),
        InputEvent::KeyPress(Key::A) => move_effect(pre, post, -1, 0),
        InputEvent::KeyPress(Key::D) => move_effect(pre, post, 1, 0),
        _ => game_unchanged(pre, post),
    }
}

/// The transition the game screen requests: Pause on an Escape press,
/// nothing otherwise.
pub open spec fn game_input_result(e: InputEvent) -> Option<ScreenState> {
    if e matches InputEvent::KeyPress(Key::Escape) {
        Some(ScreenState::Pause)
    } else {
        None
    }
}

/// The horizontal screen pixel of grid column `x`: the window center
/// shifted right by `x` cells.
pub open spec fn screen_x(x: int, window_w: int) -> int {
    window_w / 2 + x * GRID_SCALE
}

/// The vertical screen pixel of grid row `y`: the window center shifted
/// up by `y` cells (screen y grows downward, so the axis is inverted).
pub open spec fn screen_y(y: int, window_h: int) -> int {
    window_h / 2 - y * GRID_SCALE
}

/// Law: for a fixed window size the grid-to-screen transform is a fixed
/// affine map; equal grid coordinates give equal screen coordinates,
/// larger x maps to larger screen x, and larger y maps to smaller
/// (higher) screen y.
pub proof fn lemma_grid_to_screen_affine(x1: int, x2: int, y1: int, y2: int, w: int, h: int)
    ensures
        x1 == x2 ==> screen_x(x1, w) == screen_x(x2, w),
        y1 == y2 ==> screen_y(y1, h) == screen_y(y2, h),
        x1 < x2 ==> screen_x(x1, w) < screen_x(x2, w),
        y1 < y2 ==> screen_y(y1, h) > screen_y(y2, h),
        screen_x(x1 + 1, w) == screen_x(x1, w) + GRID_SCALE,
        screen_y(y1 + 1, h) == screen_y(y1, h) - GRID_SCALE,
{
}

/// An immovable obstacle point at `(x, y)`.
pub open spec fn obstacle_point(x: int, y: int) -> Point {
    Point { x: x as i32, y: y as i32, movable: false, facing: None }
}

/// The boundary points of the bottom and top rows for the first `n`
/// columns, in the order the constructor pushes them.
pub open spec fn boundary_rows(n: nat) -> Seq<Point>
    decreases n,
{
    if n == 0 {
        Seq::empty()
    } else {
        boundary_rows((n - 1) as nat).push(obstacle_point(GRID_MIN + n - 1, GRID_MIN as int)).push(
            obstacle_point(GRID_MIN + n - 1, GRID_MAX as int),
        )
    }
}

/// The boundary points of the left and right columns for the first `n`
/// rows, in the order the constructor pushes them.
pub open spec fn boundary_columns(n: nat) -> Seq<Point>
    decreases n,
{
    if n == 0 {
        Seq::empty()
    } else {
        boundary_columns((n - 1) as nat).push(
            obstacle_point(GRID_MIN as int, GRID_MIN + n - 1),
        ).push(obstacle_point(GRID_MAX as int, GRID_MIN + n - 1))
    }
}

/// The exact obstacle list the constructor builds: the bottom and top
/// rows column by column, then the left and right columns row by row
/// (each corner thus appears twice), then the four fixed interior
/// obstacles.
pub open spec fn initial_obstacles() -> Seq<Point> {
    (boundary_rows((GRID_MAX - GRID_MIN + 1) as nat) + boundary_columns(
        (GRID_MAX - GRID_MIN + 1) as nat,
    )).push(obstacle_point(2, 2)).push(obstacle_point(-2, -2)).push(obstacle_point(-2, 2)).push(
        obstacle_point(2, -2),
    )
}

proof fn lemma_boundary_rows_len(n: nat)
    ensures
        boundary_rows(n).len() == 2 * n,
    decreases n,
{
    if n > 0 {
        lemma_boundary_rows_len((n - 1) as nat);
    }
}

proof fn lemma_boundary_columns_len(n: nat)
    ensures
        boundary_columns(n).len() == 2 * n,
    decreases n,
{
    if n > 0 {
        lemma_boundary_columns_len((n - 1) as nat);
    }
}

/// Appends one immovable obstacle and restates the occupancy of every
/// cell, so callers can track what a sequence of pushes leaves behind.
fn push_obstacle(v: &mut Vec<Point>, x: i32, y: i32)
    ensures
        final(v)@ == old(v)@.push((Point { x, y, movable: false, facing: None })),
        forall|a: int, b: int|
            #![trigger has_obstacle_at(final(v)@, a, b)]
            #![trigger has_obstacle_at(old(v)@, a, b)]
            has_obstacle_at(final(v)@, a, b) <==> (has_obstacle_at(old(v)@, a, b) || (a == x
                && b == y)),
{
    let p = Point { x, y, movable: false, facing: None };
    v.push(p);
    proof {
        assert forall|a: int, b: int|
            has_obstacle_at(v@, a, b) <==> (has_obstacle_at(old(v)@, a, b) || (a == x
                && b == y)) by {
            lemma_obstacle_push(old(v)@, p, a, b);
        }
    }
}

/// Pushing a point onto an obstacle list occupies its cell and keeps
/// every cell that was occupied before.
proof fn lemma_obstacle_push(obs: Seq<Point>, p: Point, x: int, y: int)
    ensures
        has_obstacle_at(obs.push(p), x, y) <==> (has_obstacle_at(obs, x, y) || (p.x == x && p.y
            == y)),
{
    let pushed = obs.push(p);
    if has_obstacle_at(obs, x, y) {
        let i = choose|i: int| 0 <= i < obs.len() && obs[i].x == x && obs[i].y == y;
        assert(pushed[i].x == x && pushed[i].y == y);
    }
    if p.x == x && p.y == y {
        assert(pushed[obs.len() as int].x == x && pushed[obs.len() as int].y == y);
    }
    if has_obstacle_at(pushed, x, y) {
        let i = choose|i: int| 0 <= i < pushed.len() && pushed[i].x == x && pushed[i].y == y;
        if i < obs.len() {
            assert(obs[i].x == x && obs[i].y == y);
        }
    }
}

/// A list whose every point lies on an initial obstacle cell occupies
/// initial obstacle cells only.
proof fn lemma_cells_of_initial_shape(obs: Seq<Point>)
    requires
        forall|i: int|
            0 <= i < obs.len() ==> initial_obstacle_cell(
                (#[trigger] obs[i]).x as int,
                obs[i].y as int,
            ),
    ensures
        forall|x: int, y: int| has_obstacle_at(obs, x, y) ==> initial_obstacle_cell(x, y),
{
    assert forall|x: int, y: int| has_obstacle_at(obs, x, y) implies initial_obstacle_cell(
        x,
        y,
    ) by {
        let i = choose|i: int| 0 <= i < obs.len() && obs[i].x == x && obs[i].y == y;
        assert(initial_obstacle_cell(obs[i].x as int, obs[i].y as int));
    }
}

/// One level's simulation state: the player, the fixed obstacle list,
/// the pixel scale, and the transient popups.
pub struct GameScreen {
    pub player: Point,
    pub obstacles: Vec<Point>,
    pub grid_scale: i32,
    pub popups: Vec<Popup>,
}

impl GameScreen {
    /// The player stays strictly inside the boundary ring and the pixel
    /// scale is the fixed one.
    pub open spec fn wf(self) -> bool {
        &&& GRID_MIN < self.player.x < GRID_MAX
        &&& GRID_MIN < self.player.y < GRID_MAX
        &&& self.player.movable
        &&& self.grid_scale == GRID_SCALE
    }

    /// Builds the fixed level: boundary ring plus four interior corner
    /// obstacles, the player at the center facing Right, and no popups.
    pub fn new() -> (r: GameScreen)
        ensures
            r.wf(),
            r.player.x == 0 && r.player.y == 0,
            r.player.movable,
            r.player.facing == Some(Direction::Right),
            r.grid_scale == GRID_SCALE,
            r.popups@.len() == 0,
            r.obstacles@ == initial_obstacles(),
            r.obstacles@.len() == 48,
            forall|x: int, y: int|
                #[trigger] has_obstacle_at(r.obstacles@, x, y) <==> initial_obstacle_cell(x, y),
            forall|i: int|
                0 <= i < r.obstacles@.len() ==> !(#[trigger] r.obstacles@[i]).movable
                    && r.obstacles@[i].facing is None,
    {
        let player = Point { x: 0, y: 0, movable: true, facing: Some(Direction::Right) };

        let mut obstacles: Vec<Point> = Vec::new();

        // Boundary ring: the top and bottom rows ...
        let mut x: i32 = GRID_MIN;
        while x <= GRID_MAX
            invariant
                GRID_MIN <= x <= GRID_MAX + 1,
                obstacles@ == boundary_rows((x - GRID_MIN) as nat),
                forall|i: int|
                    0 <= i < obstacles@.len() ==> !(#[trigger] obstacles@[i]).movable
                        && obstacles@[i].facing is None,
                forall|i: int|
                    0 <= i < obstacles@.len() ==> initial_obstacle_cell(
                        (#[trigger] obstacles@[i]).x as int,
                        obstacles@[i].y as int,
                    ),
                forall|xx: int, yy: int|
                    #[trigger] has_obstacle_at(obstacles@, xx, yy) ==> GRID_MIN <= xx < x && (yy
                        == GRID_MIN || yy == GRID_MAX),
                forall|xx: int|
                    GRID_MIN <= xx < x ==> has_obstacle_at(obstacles@, xx, GRID_MIN as int)
                        && has_obstacle_at(obstacles@, xx, GRID_MAX as int),
            decreases GRID_MAX + 1 - x,
        {
            push_obstacle(&mut obstacles, x, GRID_MIN);
            push_obstacle(&mut obstacles, x, GRID_MAX);
            x = x + 1;
        }

        // ... and the left and right columns.
        proof {
            assert(obstacles@ =~= boundary_rows((GRID_MAX - GRID_MIN + 1) as nat)
                + boundary_columns(0));
        }
        let mut y: i32 = GRID_MIN;
        while y <= GRID_MAX
            invariant
                GRID_MIN <= y <= GRID_MAX + 1,
                obstacles@ == boundary_rows((GRID_MAX - GRID_MIN + 1) as nat) + boundary_columns(
                    (y - GRID_MIN) as nat,
                ),
                forall|i: int|
                    0 <= i < obstacles@.len() ==> !(#[trigger] obstacles@[i]).movable
                        && obstacles@[i].facing is None,
                forall|i: int|
                    0 <= i < obstacles@.len() ==> initial_obstacle_cell(
                        (#[trigger] obstacles@[i]).x as int,
                        obstacles@[i].y as int,
                    ),
                forall|xx: int, yy: int|
                    #[trigger] has_obstacle_at(obstacles@, xx, yy) ==> (yy == GRID_MIN || yy
                        == GRID_MAX) || ((xx == GRID_MIN || xx == GRID_MAX) && GRID_MIN <= yy < y),
                forall|xx: int|
                    GRID_MIN <= xx <= GRID_MAX ==> has_obstacle_at(obstacles@, xx, GRID_MIN as int)
                        && has_obstacle_at(obstacles@, xx, GRID_MAX as int),
                forall|yy: int|
                    GRID_MIN <= yy < y ==> has_obstacle_at(obstacles@, GRID_MIN as int, yy)
                        && has_obstacle_at(obstacles@, GRID_MAX as int, yy),
            decreases GRID_MAX + 1 - y,
        {
            push_obstacle(&mut obstacles, GRID_MIN, y);
            push_obstacle(&mut obstacles, GRID_MAX, y);
            proof {
                assert(obstacles@ =~= boundary_rows((GRID_MAX - GRID_MIN + 1) as nat)
                    + boundary_columns((y + 1 - GRID_MIN) as nat));
            }
            y = y + 1;
        }

        // The four fixed interior obstacles.
        push_obstacle(&mut obstacles, 2, 2);
        push_obstacle(&mut obstacles, -2, -2);
        push_obstacle(&mut obstacles, -2, 2);
        push_obstacle(&mut obstacles, 2, -2);

        proof {
            lemma_cells_of_initial_shape(obstacles@);
            lemma_boundary_rows_len((GRID_MAX - GRID_MIN + 1) as nat);
            lemma_boundary_columns_len((GRID_MAX - GRID_MIN + 1) as nat);
            assert(obstacles@ =~= initial_obstacles());
        }

        GameScreen { player, obstacles, grid_scale: GRID_SCALE, popups: Vec::new() }
    }

    /// Whether any obstacle occupies cell `(x, y)`.
    pub fn has_obstacle(&self, x: i32, y: i32) -> (r: bool)
        ensures
            r == has_obstacle_at(self.obstacles@, x as int, y as int),
    {
        let mut i: usize = 0;
        while i < self.obstacles.len()
            invariant
                i <= self.obstacles@.len(),
                forall|j: int|
                    0 <= j < i ==> !((#[trigger] self.obstacles@[j]).x == x
                        && self.obstacles@[j].y == y),
            decreases self.obstacles@.len() - i,
        {
            let p = self.obstacles[i];
            if p.x == x && p.y == y {
                return true;
            }
            i = i + 1;
        }
        false
    }

    /// Appends one immovable obstacle at `(x, y)`; everything else is
    /// untouched.
    pub fn add_obstacle(&mut self, x: i32, y: i32)
        ensures
            final(self).player == old(self).player,
            final(self).grid_scale == old(self).grid_scale,
            final(self).popups@ == old(self).popups@,
            final(self).obstacles@ == old(self).obstacles@.push(
                (Point { x, y, movable: false, facing: None }),
            ),
            forall|a: int, b: int|
                #![trigger has_obstacle_at(final(self).obstacles@, a, b)]
                has_obstacle_at(final(self).obstacles@, a, b) <==> (has_obstacle_at(
                    old(self).obstacles@,
                    a,
                    b,
                ) || (a == x && b == y)),
    {
        push_obstacle(&mut self.obstacles, x, y);
    }

    /// Attempts a one-cell step. The facing always turns toward the
    /// attempted direction; the step itself is rejected on or beyond the
    /// boundary (with a popup) and on an obstacle (silently).
    pub fn try_move_player(&mut self, dx: i32, dy: i32)
        requires
            old(self).wf(),
            -1 <= dx <= 1,
            -1 <= dy <= 1,
        ensures
            final(self).wf(),
            move_effect(*old(self), *final(self), dx as int, dy as int),
    {
        // Update facing first; it turns even when the step is rejected.
        let f = match (dx, dy) {
            (0, 1) => Direction::Up,
            (0, -1) => Direction::Down,
            (-1, 0) => Direction::Left,
            (1, 0) => Direction::Right,
            _ => match self.player.facing {
                Some(d) => d,
                None => Direction::Right,
            },
        };
        self.player.facing = Some(f);

        let new_x = self.player.x + dx;
        let new_y = self.player.y + dy;

        if new_x <= GRID_MIN || new_x >= GRID_MAX || new_y <= GRID_MIN || new_y >= GRID_MAX {
            self.show_boundary_message();
            return ;
        }
        if !self.has_obstacle(new_x, new_y) {
            self.player.x = new_x;
            self.player.y = new_y;
        }
    }

    /// Appends the popup a rejected boundary move announces.
    pub fn show_boundary_message(&mut self)
        ensures
            final(self).player == old(self).player,
            final(self).obstacles@ == old(self).obstacles@,
            final(self).grid_scale == old(self).grid_scale,
            final(self).popups@.len() == old(self).popups@.len() + 1,
            final(self).popups@.drop_last() == old(self).popups@,
            is_boundary_popup(final(self).popups@.last()),
    {
        let message = String::from_str("Boundary in the way");
        let p = Popup::new_text_box(message, BOUNDARY_POPUP_TICKS);
        self.popups.push(p);
        proof {
            assert(self.popups@.drop_last() =~= old(self).popups@);
        }
    }

    /// Advances every popup one tick and drops the ones no longer active,
    /// keeping the relative order of the rest.
    pub fn update_popups(&mut self)
        ensures
            final(self).player == old(self).player,
            final(self).obstacles@ == old(self).obstacles@,
            final(self).grid_scale == old(self).grid_scale,
            final(self).popups@ == popups_after_update(old(self).popups@),
    {
        let mut source: Vec<Popup> = Vec::new();
        core::mem::swap(&mut source, &mut self.popups);
        let ghost orig: Seq<Popup> = source@;
        while source.len() > 0
            invariant
                source@.len() <= orig.len(),
                source@ == orig.subrange(
                    orig.len() - source@.len(),
                    orig.len() as int,
                ),
                self.popups@ == popups_after_update(
                    orig.subrange(0, orig.len() - source@.len()),
                ),
                self.player == old(self).player,
                self.obstacles@ == old(self).obstacles@,
                self.grid_scale == old(self).grid_scale,
            decreases source@.len(),
        {
            let ghost k: int = orig.len() - source@.len();
            let mut p = source.remove(0);
            assert(p == orig[k]);
            p.update();
            if p.active {
                self.popups.push(p);
            }
            proof {
                assert(orig.subrange(0, k + 1).drop_last() =~= orig.subrange(0, k));
                assert(orig.subrange(0, k + 1).last() == orig[k]);
                assert(source@ =~= orig.subrange(orig.len() - source@.len(), orig.len() as int));
            }
        }
        proof {
            assert(orig.subrange(0, orig.len() as int) =~= orig);
        }
    }

    /// The window pixel of grid cell `(x, y)`: the window center shifted
    /// by the cell offsets, with the vertical axis inverted.
    pub fn grid_to_screen(&self, x: i32, y: i32, window_w: u32, window_h: u32) -> (r: (i64, i64))
        requires
            self.wf(),
            GRID_MIN <= x <= GRID_MAX,
            GRID_MIN <= y <= GRID_MAX,
        ensures
            r.0 == screen_x(x as int, window_w as int),
            r.1 == screen_y(y as int, window_h as int),
    {
        let center_x: i64 = (window_w / 2) as i64;
        let center_y: i64 = (window_h / 2) as i64;
        (center_x + (x as i64) * (self.grid_scale as i64), center_y - (y as i64) * (
        self.grid_scale as i64))
    }

    /// One update pass: the popups advance; this screen never requests a
    /// transition on its own.
    pub fn update(&mut self) -> (r: Option<ScreenState>)
        ensures
            game_update_effect(*old(self), *final(self)),
            r is None,
    {
        self.update_popups();
        None
    }

    /// Reacts to one input event: W/S/A/D issue unit moves, an Escape
    /// press requests the Pause state, everything else is inert.
    pub fn handle_input(&mut self, input: &InputEvent) -> (r: Option<ScreenState>)
        requires
            old(self).wf(),
        ensures
            final(self).wf(),
            game_input_effect(*old(self), *final(self), *input),
            r == game_input_result(*input),
    {
        match input {
            InputEvent::KeyPress(key) => match key {
                Key::W => {
                    self.try_move_player(0, 1);
                    None
                },
                Key::S => {
                    self.try_move_player(0, -1);
                    None
                },
                Key::A => {
                    self.try_move_player(-1, 0);
                    None
                },
                Key::D => {
                    self.try_move_player(1, 0);
                    None
                },
                Key::Escape => Some(ScreenState::Pause),
                Key::Other => None,
            },
            _ => None,
        }
    }
}

} // verus!
