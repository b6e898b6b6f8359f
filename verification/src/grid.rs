//! The grid of cells that the two teams fight over.
//!
//! The grid is `GRID_SIZE` × `GRID_SIZE` cells, stored row-major: the cell
//! at column `x` and row `y` sits at index `y * GRID_SIZE + x`.  A fresh
//! grid is split down the middle, the left half owned by the day team and
//! the right half by the night team.  A ball claims a cell by touching it:
//! a touched cell of the other team flips to the ball's team and the ball
//! bounces off it.
use vstd::prelude::*;
use crate::color::Team;

verus! {

broadcast use vstd::array::group_array_axioms;

/// Number of pixels along one side of the LED matrix.
pub const PIXEL_SIZE: usize = 64;

/// Pixels per cell.
pub const SQUARE_SIZE: usize = 2;

/// Number of cells along one side of the grid.
pub const GRID_SIZE: usize = 32;

/// Number of cells in the whole grid.
pub const CELL_COUNT: usize = 1024;

/// Number of points sampled around a ball's perimeter when it checks for
/// cell collisions.
pub const COLLISION_SAMPLES: u8 = 8;

/// Number of cells of team `t` in `s`.
pub open spec fn count_team(s: Seq<Team>, t: Team) -> nat
    decreases s.len(),
{
    if s.len() == 0 {
        0
    } else {
        count_team(s.drop_last(), t) + (if s.last() == t {
            1nat
        } else {
            0nat
        })
    }
}

/// The team that owns the cell at index `k` of a fresh grid: columns left
/// of the middle belong to the day team, the others to the night team.
pub open spec fn initial_owner(k: int) -> Team {
    if k % (GRID_SIZE as int) < (GRID_SIZE as int) / 2 {
        Team::Day
    } else {
        Team::Night
    }
}

/// The cells of a fresh grid.
pub open spec fn initial_cells() -> Seq<Team> {
    Seq::new(CELL_COUNT as nat, |k: int| initial_owner(k))
}

/// Whether `(x, y)` names a cell of the grid.
pub open spec fn on_grid(x: int, y: int) -> bool {
    0 <= x < GRID_SIZE as int && 0 <= y < GRID_SIZE as int
}

/// Index of the cell at column `x`, row `y`.
pub open spec fn cell_index(x: int, y: int) -> int {
    y * (GRID_SIZE as int) + x
}

/// Owner of the cell at `(x, y)` in `s`, or `None` off the grid.
pub open spec fn cell_at(s: Seq<Team>, x: int, y: int) -> Option<Team> {
    if on_grid(x, y) {
        Some(s[cell_index(x, y)])
    } else {
        None
    }
}

/// Whether a ball of `team` touching the point in cell `(i, j)` claims that
/// cell: the cell is on the grid and owned by the other team.
pub open spec fn claims(s: Seq<Team>, team: Team, i: int, j: int) -> bool {
    on_grid(i, j) && s[cell_index(i, j)] != team
}

/// The cells after a ball of `team` touches cell `(i, j)`.
pub open spec fn after_claim(s: Seq<Team>, team: Team, i: int, j: int) -> Seq<Team> {
    if claims(s, team, i, j) {
        s.update(cell_index(i, j), team)
    } else {
        s
    }
}

/// One point sampled on a ball's perimeter: the cell it falls in, and the
/// velocity component the ball reflects if that cell is claimed (the x
/// component when the sample lies more to the side than above or below the
/// ball's center, the y component otherwise).
#[derive(Clone, Copy, Debug, PartialEq, Eq, Structural)]
pub struct Sample {
    /// Column of the sampled cell (may lie off the grid).
    pub i: isize,
    /// Row of the sampled cell (may lie off the grid).
    pub j: isize,
    /// Reflect the x component (`true`) or the y component (`false`).
    pub reflect_x: bool,
}

/// Which velocity components a ball negates after a collision check.
#[derive(Clone, Copy, Debug, PartialEq, Eq, Structural)]
pub struct Reflection {
    /// Negate the x component.
    pub flip_x: bool,
    /// Negate the y component.
    pub flip_y: bool,
}

/// The cells and the reflection after a ball of `team` goes through the
/// samples in order, each claimed sample negating its velocity component
/// once more.
pub open spec fn collide_spec(s: Seq<Team>, team: Team, samples: Seq<Sample>) -> (
    Seq<Team>,
    Reflection,
)
    decreases samples.len(),
{
    if samples.len() == 0 {
        (s, Reflection { flip_x: false, flip_y: false })
    } else {
        let (prev, r) = collide_spec(s, team, samples.drop_last());
        let smp = samples.last();
        if claims(prev, team, smp.i as int, smp.j as int) {
            (
                after_claim(prev, team, smp.i as int, smp.j as int),
                if smp.reflect_x {
                    Reflection { flip_x: !r.flip_x, flip_y: r.flip_y }
                } else {
                    Reflection { flip_x: r.flip_x, flip_y: !r.flip_y }
                },
            )
        } else {
            (prev, r)
        }
    }
}

/// Row-major grid of owning teams: `cells[y * GRID_SIZE + x]`.
pub struct Grid {
    cells: [Team; CELL_COUNT],
}

impl Grid {
    /// The owners of all cells, row-major.
    pub closed spec fn view(&self) -> Seq<Team> {
        self.cells@
    }

    /// The grid always holds exactly `CELL_COUNT` cells.
    pub proof fn lemma_len(&self)
        ensures
            self.view().len() == CELL_COUNT,
    {
    }

    /// A fresh grid: left half day, right half night.
    pub fn new() -> (g: Grid)
        ensures
            g.view() == initial_cells(),
            g.view().len() == CELL_COUNT,
            forall|k: int|
                0 <= k < CELL_COUNT ==> #[trigger] g.view()[k] == (if k % 32 < 16 {
                    Team::Day
                } else {
                    Team::Night
                }),
    {
        let mut cells = [Team::Day; CELL_COUNT];
        let mut y: usize = 0;
        while y < GRID_SIZE
            invariant
                y <= GRID_SIZE,
                cells@.len() == CELL_COUNT,
                forall|k: int|
                    0 <= k < CELL_COUNT ==> #[trigger] cells@[k] == (if k < y * GRID_SIZE {
                        initial_owner(k)
                    } else {
                        Team::Day
                    }),
            decreases GRID_SIZE - y,
        {
            let mut x: usize = GRID_SIZE / 2;
            while x < GRID_SIZE
                invariant
                    y < GRID_SIZE,
                    GRID_SIZE / 2 <= x <= GRID_SIZE,
                    cells@.len() == CELL_COUNT,
                    forall|k: int|
                        0 <= k < CELL_COUNT ==> #[trigger] cells@[k] == (if k < y * GRID_SIZE || (k
                            < y * GRID_SIZE + x && k >= y * GRID_SIZE + GRID_SIZE / 2) {
                            initial_owner(k)
                        } else {
                            Team::Day
                        }),
                decreases GRID_SIZE - x,
            {
                cells[y * GRID_SIZE + x] = Team::Night;
                x = x + 1;
            }
            y = y + 1;
        }
        assert(cells@ =~= initial_cells());
        Grid { cells }
    }

    /// All cells, row-major.  Useful for renderers that want to bulk-blit.
    pub fn cells(&self) -> (c: &[Team; CELL_COUNT])
        ensures
            c@ == self.view(),
    {
        &self.cells
    }

    /// Owning team of a single cell, or `None` if the coordinates are
    /// off-grid.
    pub fn cell(&self, x: usize, y: usize) -> (t: Option<Team>)
        ensures
            self.view().len() == CELL_COUNT,
            t == cell_at(self.view(), x as int, y as int),
            t.is_none() <==> (x >= GRID_SIZE || y >= GRID_SIZE),
            x < 32 && y < 32 ==> t == Some(self.view()[y * 32 + x]),
    {
        if x >= GRID_SIZE || y >= GRID_SIZE {
            return None;
        }
        Some(self.cells[y * GRID_SIZE + x])
    }

    /// Count of cells owned by each team — `(day, night)`.
    pub fn score(&self) -> (s: (u32, u32))
        ensures
            self.view().len() == CELL_COUNT,
            s.0 == count_team(self.view(), Team::Day),
            s.1 == count_team(self.view(), Team::Night),
            s.0 + s.1 == CELL_COUNT,
    {
        let mut day: u32 = 0;
        let mut night: u32 = 0;
        let mut k: usize = 0;
        while k < CELL_COUNT
            invariant
                self.cells@.len() == CELL_COUNT,
                k <= CELL_COUNT,
                day == count_team(self.cells@.take(k as int), Team::Day),
                night == count_team(self.cells@.take(k as int), Team::Night),
                day + night == k,
            decreases CELL_COUNT - k,
        {
            proof {
                lemma_counts_sum(self.cells@.take(k as int));
                assert(self.cells@.take(k + 1).drop_last() =~= self.cells@.take(k as int));
            }
            match self.cells[k] {
                Team::Day => day = day + 1,
                Team::Night => night = night + 1,
            }
            k = k + 1;
        }
        assert(self.cells@.take(CELL_COUNT as int) =~= self.cells@);
        (day, night)
    }

    /// A ball of `team` touches a point in cell `(i, j)`: if that cell is on
    /// the grid and owned by the other team it flips to `team`.  Returns
    /// whether the cell flipped, which is when the ball bounces off it.
    pub fn claim(&mut self, i: isize, j: isize, team: Team) -> (flipped: bool)
        ensures
            old(self).view().len() == CELL_COUNT,
            final(self).view().len() == CELL_COUNT,
            flipped == claims(old(self).view(), team, i as int, j as int),
            final(self).view() == after_claim(old(self).view(), team, i as int, j as int),
            flipped == (0 <= i < 32 && 0 <= j < 32 && old(self).view()[j * 32 + i] != team),
            final(self).view() == (if flipped {
                old(self).view().update(j * 32 + i, team)
            } else {
                old(self).view()
            }),
    {
        if 0 <= i && i < GRID_SIZE as isize && 0 <= j && j < GRID_SIZE as isize {
            let idx: usize = (j as usize) * GRID_SIZE + (i as usize);
            if self.cells[idx] != team {
                self.cells[idx] = team;
                return true;
            }
        }
        false
    }

    /// Check a ball of `team` against the cells under its perimeter samples,
    /// in order: each sampled cell of the other team flips to `team`, and the
    /// ball's velocity component named by that sample is negated once more.
    /// Returns which components end up negated.
    pub fn collide(&mut self, team: Team, samples: &[Sample]) -> (r: Reflection)
        ensures
            final(self).view() == collide_spec(old(self).view(), team, samples@).0,
            r == collide_spec(old(self).view(), team, samples@).1,
    {
        let ghost start = self.view();
        let mut flip_x = false;
        let mut flip_y = false;
        let mut k: usize = 0;
        while k < samples.len()
            invariant
                k <= samples@.len(),
                self.view() == collide_spec(start, team, samples@.take(k as int)).0,
                (Reflection { flip_x, flip_y }) == collide_spec(
                    start,
                    team,
                    samples@.take(k as int),
                ).1,
            decreases samples@.len() - k,
        {
            let smp = samples[k];
            proof {
                assert(samples@.take(k + 1).drop_last() =~= samples@.take(k as int));
            }
            if self.claim(smp.i, smp.j, team) {
                if smp.reflect_x {
                    flip_x = !flip_x;
                } else {
                    flip_y = !flip_y;
                }
            }
            k = k + 1;
        }
        assert(samples@.take(samples@.len() as int) =~= samples@);
        Reflection { flip_x, flip_y }
    }
}

/// Every cell belongs to exactly one team: the two counts add up to the
/// number of cells.
pub proof fn lemma_counts_sum(s: Seq<Team>)
    ensures
        count_team(s, Team::Day) + count_team(s, Team::Night) == s.len(),
    decreases s.len(),
{
    if s.len() > 0 {
        lemma_counts_sum(s.drop_last());
    }
}

/// Setting one cell changes the count of a team by at most one: it loses
/// the old owner if that was the team, and gains the new one if that is.
pub proof fn lemma_count_update(s: Seq<Team>, idx: int, t: Team, u: Team)
    requires
        0 <= idx < s.len(),
    ensures
        count_team(s.update(idx, t), u) + (if s[idx] == u {
            1int
        } else {
            0int
        }) == count_team(s, u) + (if t == u {
            1int
        } else {
            0int
        }),
    decreases s.len(),
{
    if idx == s.len() - 1 {
        assert(s.update(idx, t).drop_last() =~= s.drop_last());
    } else {
        assert(s.update(idx, t).drop_last() =~= s.drop_last().update(idx, t));
        lemma_count_update(s.drop_last(), idx, t, u);
    }
}

/// Day cells among the first `n` cells of a fresh grid: sixteen per full
/// row, plus the first (at most sixteen) cells of a partial row.
proof fn lemma_initial_prefix_day(n: int)
    requires
        0 <= n <= CELL_COUNT,
    ensures
        count_team(initial_cells().take(n), Team::Day) == 16 * (n / 32) + (if n % 32 < 16 {
            n % 32
        } else {
            16
        }),
    decreases n,
{
    if n > 0 {
        lemma_initial_prefix_day(n - 1);
        assert(initial_cells().take(n).drop_last() =~= initial_cells().take(n - 1));
        assert(initial_cells().take(n).last() == initial_owner(n - 1));
        let m = n - 1;
        assert(m % 32 < 31 ==> n / 32 == m / 32 && n % 32 == m % 32 + 1);
        assert(m % 32 == 31 ==> n / 32 == m / 32 + 1 && n % 32 == 0);
    }
}

/// A fresh grid is split evenly: 512 cells for each team, the day team
/// owning exactly the left half of every row.
pub proof fn lemma_initial_balanced()
    ensures
        count_team(initial_cells(), Team::Day) == CELL_COUNT / 2,
        count_team(initial_cells(), Team::Night) == CELL_COUNT / 2,
        forall|x: int, y: int|
            on_grid(x, y) ==> (#[trigger] cell_at(initial_cells(), x, y) == Some(Team::Day) <==> x
                < GRID_SIZE / 2),
{
    lemma_initial_prefix_day(CELL_COUNT as int);
    assert(initial_cells().take(CELL_COUNT as int) =~= initial_cells());
    lemma_counts_sum(initial_cells());
    assert forall|x: int, y: int| on_grid(x, y) implies (#[trigger] cell_at(initial_cells(), x, y)
        == Some(Team::Day) <==> x < GRID_SIZE / 2) by {
        assert(0 <= cell_index(x, y) < CELL_COUNT) by (nonlinear_arith)
            requires
                0 <= x < 32,
                0 <= y < 32,
        ;
        assert(cell_index(x, y) % 32 == x) by (nonlinear_arith)
            requires
                0 <= x < 32,
                0 <= y < 32,
        ;
    }
}

/// A claim that flips a cell moves exactly one cell from the other team to
/// the claiming team; a claim that does not flip changes nothing.  Either
/// way the cell afterwards belongs to the claiming team if it is on the
/// grid, and every other cell keeps its owner.
pub proof fn lemma_claim_effect(s: Seq<Team>, team: Team, i: int, j: int)
    requires
        s.len() == CELL_COUNT,
    ensures
        after_claim(s, team, i, j).len() == CELL_COUNT,
        count_team(after_claim(s, team, i, j), team) == count_team(s, team) + (if claims(
            s,
            team,
            i,
            j,
        ) {
            1int
        } else {
            0int
        }),
        count_team(after_claim(s, team, i, j), team.spec_opposite()) + (if claims(s, team, i, j) {
            1int
        } else {
            0int
        }) == count_team(s, team.spec_opposite()),
        on_grid(i, j) ==> cell_at(after_claim(s, team, i, j), i, j) == Some(team),
        forall|x: int, y: int|
            on_grid(x, y) && (x, y) != (i, j) ==> #[trigger] cell_at(after_claim(s, team, i, j), x, y)
                == cell_at(s, x, y),
{
    if on_grid(i, j) {
        assert(0 <= cell_index(i, j) < CELL_COUNT) by (nonlinear_arith)
            requires
                0 <= i < 32,
                0 <= j < 32,
        ;
    }
    if claims(s, team, i, j) {
        lemma_count_update(s, cell_index(i, j), team, team);
        lemma_count_update(s, cell_index(i, j), team, team.spec_opposite());
        assert(s[cell_index(i, j)] == team.spec_opposite());
    }
    assert forall|x: int, y: int| on_grid(x, y) && (x, y) != (i, j) implies #[trigger] cell_at(
        after_claim(s, team, i, j),
        x,
        y,
    ) == cell_at(s, x, y) by {
        if claims(s, team, i, j) {
            assert(cell_index(x, y) != cell_index(i, j)) by (nonlinear_arith)
                requires
                    0 <= x < 32,
                    0 <= y < 32,
                    0 <= i < 32,
                    0 <= j < 32,
                    x != i || y != j,
            ;
            assert(0 <= cell_index(x, y) < CELL_COUNT) by (nonlinear_arith)
                requires
                    0 <= x < 32,
                    0 <= y < 32,
            ;
        }
    }
}

/// After a collision check every sampled cell that lies on the grid
/// belongs to the ball's team, no other cell changes owner, and the
/// ball's team never loses cells.
pub proof fn lemma_collide_effect(s: Seq<Team>, team: Team, samples: Seq<Sample>)
    requires
        s.len() == CELL_COUNT,
    ensures
        collide_spec(s, team, samples).0.len() == CELL_COUNT,
        forall|k: int|
            0 <= k < samples.len() && on_grid(samples[k].i as int, samples[k].j as int) ==> cell_at(
                collide_spec(s, team, samples).0,
                samples[k].i as int,
                samples[k].j as int,
            ) == Some(team),
        forall|x: int, y: int|
            on_grid(x, y) && (forall|k: int|
                0 <= k < samples.len() ==> (samples[k].i as int, samples[k].j as int) != (x, y))
                ==> #[trigger] cell_at(collide_spec(s, team, samples).0, x, y) == cell_at(s, x, y),
        count_team(collide_spec(s, team, samples).0, team) >= count_team(s, team),
    decreases samples.len(),
{
    if samples.len() > 0 {
        let rest = samples.drop_last();
        lemma_collide_effect(s, team, rest);
        let prev = collide_spec(s, team, rest).0;
        let smp = samples.last();
        lemma_claim_effect(prev, team, smp.i as int, smp.j as int);
        let next = collide_spec(s, team, samples).0;
        assert(next == after_claim(prev, team, smp.i as int, smp.j as int));
        assert forall|k: int|
            0 <= k < samples.len() && on_grid(
                samples[k].i as int,
                samples[k].j as int,
            ) implies cell_at(next, samples[k].i as int, samples[k].j as int) == Some(team) by {
            if k < samples.len() - 1 {
                assert(rest[k] == samples[k]);
                if (samples[k].i as int, samples[k].j as int) != (smp.i as int, smp.j as int) {
                    assert(cell_at(next, samples[k].i as int, samples[k].j as int) == cell_at(
                        prev,
                        samples[k].i as int,
                        samples[k].j as int,
                    ));
                }
            }
        }
        assert forall|x: int, y: int|
            on_grid(x, y) && (forall|k: int|
                0 <= k < samples.len() ==> (samples[k].i as int, samples[k].j as int) != (
                    x,
                    y,
                )) implies #[trigger] cell_at(next, x, y) == cell_at(s, x, y) by {
            assert forall|k: int| 0 <= k < rest.len() implies (rest[k].i as int, rest[k].j as int)
                != (x, y) by {
                assert(rest[k] == samples[k]);
            }
            assert((smp.i as int, smp.j as int) != (x, y));
            assert(cell_at(next, x, y) == cell_at(prev, x, y));
        }
    }
}

/// With no samples nothing changes and nothing reflects.
///
/// Appending one sample to the list: the cell under it flips to the ball's
/// team exactly when it lies on the grid and is owned by the other team, and
/// then the sample's own axis reflects once more while the other axis is
/// untouched.  So `flip_x` is the parity of the flipping samples that reflect
/// x, and `flip_y` the parity of the flipping samples that reflect y.
pub proof fn lemma_collide_step(s: Seq<Team>, team: Team, samples: Seq<Sample>, smp: Sample)
    requires
        s.len() == CELL_COUNT,
    ensures
        collide_spec(s, team, Seq::empty()) == (s, Reflection { flip_x: false, flip_y: false }),
        ({
            let (prev, r) = collide_spec(s, team, samples);
            let (next, r2) = collide_spec(s, team, samples.push(smp));
            let i = smp.i as int;
            let j = smp.j as int;
            let hit = 0 <= i < 32 && 0 <= j < 32 && prev[j * 32 + i] != team;
            &&& r2.flip_x == (r.flip_x != (hit && smp.reflect_x))
            &&& r2.flip_y == (r.flip_y != (hit && !smp.reflect_x))
            &&& next == (if hit {
                prev.update(j * 32 + i, team)
            } else {
                prev
            })
        }),
{
    assert(samples.push(smp).drop_last() =~= samples);
}

/// A reflection of one sample alone: a sample that flips a cell reflects
/// only its own axis, a sample that flips nothing reflects nothing.
pub proof fn lemma_collide_single(s: Seq<Team>, team: Team, smp: Sample)
    requires
        s.len() == CELL_COUNT,
    ensures
        ({
            let r = collide_spec(s, team, seq![smp]).1;
            let i = smp.i as int;
            let j = smp.j as int;
            let hit = 0 <= i < 32 && 0 <= j < 32 && s[j * 32 + i] != team;
            &&& r.flip_x == (hit && smp.reflect_x)
            &&& r.flip_y == (hit && !smp.reflect_x)
        }),
{
    lemma_collide_step(s, team, Seq::empty(), smp);
    assert(Seq::<Sample>::empty().push(smp) =~= seq![smp]);
}

} // verus!
