use vstd::prelude::*;

use crate::cell::{Cell, Snowflake, MAX_HEIGHT};
use crate::rng::RandomSource;

verus! {

/// The one action the propagation phase derives for a cell from the cell itself and the
/// live destination row below it: leave it alone, overwrite it in place,
/// move the flake to column `dest` of the row below with a fresh fall
/// delay, or grow the pile at column `dest` of the row below to the given
/// height.
#[derive(Clone, Copy, PartialEq, Eq, Structural, Debug)]
pub enum Action {
    Nop,
    Replace(Cell),
    Move(Snowflake, usize),
    Pile(u8, usize),
}

/// What the landing phase does to one bottom-row cell: an eligible
/// flake becomes the seed of a new pile, a waiting flake counts down, and
/// everything else is untouched.
pub open spec fn land_spec(c: Cell) -> Cell {
    match c {
        Cell::Flake(kind, delay) => if delay == 0 {
            Cell::Stack(1)
        } else {
            Cell::Flake(kind, (delay - 1) as u8)
        },
        _ => c,
    }
}

/// The landing phase over the whole grid: only the bottom row changes.
pub open spec fn land_grid_spec(g: Seq<Seq<Cell>>) -> Seq<Seq<Cell>> {
    g.update(g.len() - 1, Seq::new(g[g.len() - 1].len(), |c: int| land_spec(g[g.len() - 1][c])))
}

/// Height a neighbour cell contributes to the pile comparison: the height
/// of a pile standing there, or the sentinel 9 ("ineligible") otherwise.
pub open spec fn pile_height(c: Cell) -> u8 {
    match c {
        Cell::Stack(height) => height,
        _ => 9,
    }
}

/// Pile-comparison height of the cell left of `col`, sentinel at the edge.
pub open spec fn left_height(below: Seq<Cell>, col: usize) -> u8 {
    if col > 0 {
        pile_height(below[col as int - 1])
    } else {
        9
    }
}

/// Pile-comparison height of the cell right of `col`, sentinel at the edge.
pub open spec fn right_height(below: Seq<Cell>, col: usize) -> u8 {
    if col as int + 1 < below.len() {
        pile_height(below[col as int + 1])
    } else {
        9
    }
}

/// The action for an eligible flake (fall delay 0) at `col`, judging from
/// the live destination row `below`: fall into empty space, vanish against
/// another flake, slip diagonally to an empty cell, or pile onto the
/// lowest of the three candidate piles, ties resolved middle, then right,
/// then left; a full middle pile seeds a new pile in place.
pub open spec fn flake_action_spec(kind: Snowflake, col: usize, below: Seq<Cell>) -> Action {
    match below[col as int] {
        Cell::Empty => Action::Move(kind, col),
        Cell::Flake(_, _) => Action::Replace(Cell::Empty),
        Cell::Stack(height) => {
            if col > 0 && below[col as int - 1] == Cell::Empty {
                Action::Move(kind, (col - 1) as usize)
            } else if col as int + 1 < below.len() && below[col as int + 1] == Cell::Empty {
                Action::Move(kind, (col + 1) as usize)
            } else {
                let h_left = left_height(below, col);
                let h_right = right_height(below, col);
                if height <= h_left && height <= h_right {
                    if height < MAX_HEIGHT {
                        Action::Pile((height + 1) as u8, col)
                    } else {
                        Action::Replace(Cell::Stack(1))
                    }
                } else if h_right <= h_left {
                    Action::Pile((h_right + 1) as u8, (col + 1) as usize)
                } else {
                    Action::Pile((h_left + 1) as u8, (col - 1) as usize)
                }
            }
        },
    }
}

/// The action the propagation phase derives for any cell: empty cells and piles rest,
/// waiting flakes count down, eligible flakes act as `flake_action_spec`
/// says.
pub open spec fn action_spec(cell: Cell, col: usize, below: Seq<Cell>) -> Action {
    match cell {
        Cell::Empty => Action::Nop,
        Cell::Stack(_) => Action::Nop,
        Cell::Flake(kind, delay) => if delay > 0 {
            Action::Replace(Cell::Flake(kind, (delay - 1) as u8))
        } else {
            flake_action_spec(kind, col, below)
        },
    }
}

/// One propagation step: the action derived for column `col` applied to the
/// current row and the live destination row; `delay` is the fall-delay
/// draw consumed if the action is a move.
pub open spec fn apply_spec(cur: Seq<Cell>, nxt: Seq<Cell>, col: usize, delay: u8) -> (Seq<
    Cell,
>, Seq<Cell>) {
    match action_spec(cur[col as int], col, nxt) {
        Action::Nop => (cur, nxt),
        Action::Replace(c) => (cur.update(col as int, c), nxt),
        Action::Move(kind, dest) => (
            cur.update(col as int, Cell::Empty),
            nxt.update(dest as int, Cell::Flake(kind, delay)),
        ),
        Action::Pile(height, dest) => (
            cur.update(col as int, Cell::Empty),
            nxt.update(dest as int, Cell::Stack(height)),
        ),
    }
}

/// The first `n` columns of one propagation row pass, left to right;
/// `delays[c]` is the fall-delay draw column `c` consumes if its action is
/// a move.
pub open spec fn row_pass_spec(cur: Seq<Cell>, nxt: Seq<Cell>, delays: Seq<u8>, n: int) -> (Seq<
    Cell,
>, Seq<Cell>)
    decreases n,
{
    if n <= 0 {
        (cur, nxt)
    } else {
        let prev = row_pass_spec(cur, nxt, delays, n - 1);
        apply_spec(prev.0, prev.1, (n - 1) as usize, delays[n - 1])
    }
}

/// The propagation phase from the bottom up: the grid after the row passes for rows
/// `g.len() - 2` down to `r`, in that order.
pub open spec fn fall_from_spec(g: Seq<Seq<Cell>>, delays: Seq<Seq<u8>>, r: int) -> Seq<Seq<Cell>>
    decreases g.len() - r,
{
    if r < 0 || r > g.len() - 2 {
        g
    } else {
        let g1 = fall_from_spec(g, delays, r + 1);
        let p = row_pass_spec(g1[r], g1[r + 1], delays[r], g1[r].len() as int);
        g1.update(r, p.0).update(r + 1, p.1)
    }
}

/// The spawn phase on the top row: column `c` is overwritten with a fresh flake of
/// the kind `kinds[c]` selects when `spawns[c]` holds, and kept otherwise.
pub open spec fn spawn_row_spec(top: Seq<Cell>, spawns: Seq<bool>, kinds: Seq<u8>) -> Seq<Cell> {
    Seq::new(
        top.len(),
        |c: int|
            if spawns[c] {
                Cell::Flake(Snowflake::from_variant_spec(kinds[c]), 0)
            } else {
                top[c]
            },
    )
}

/// The spawn phase over the whole grid: only the top row changes.
pub open spec fn spawn_grid_spec(g: Seq<Seq<Cell>>, spawns: Seq<bool>, kinds: Seq<u8>) -> Seq<
    Seq<Cell>,
> {
    g.update(0, spawn_row_spec(g[0], spawns, kinds))
}

/// A row of fall-delay draws for one row pass: one per column, each in
/// `[1, 5]`.
pub open spec fn row_delays_ok(ds: Seq<u8>, cols: int) -> bool {
    &&& ds.len() == cols
    &&& forall|i: int| 0 <= i < cols ==> 1 <= #[trigger] ds[i] <= 5
}

/// Fall-delay draws for the whole propagation phase: one row of draws per grid
/// row.
pub open spec fn grid_delays_ok(ds: Seq<Seq<u8>>, rows: int, cols: int) -> bool {
    &&& ds.len() == rows
    &&& forall|r: int| 0 <= r < rows ==> row_delays_ok(#[trigger] ds[r], cols)
}

/// Kind draws for the spawn phase: each a one-based variant number.
pub open spec fn kinds_in_range(ks: Seq<u8>) -> bool {
    forall|c: int| 0 <= c < ks.len() ==> 1 <= #[trigger] ks[c] <= 3
}

/// What one propagation row pass leaves behind: the full pass over row `row`
/// and the live row below it, with `ds` the fall-delay draws it consumed.
pub open spec fn pass_row_post(
    pre: Seq<Seq<Cell>>,
    post: Seq<Seq<Cell>>,
    row: int,
    cols: int,
    ds: Seq<u8>,
) -> bool {
    let p = row_pass_spec(pre[row], pre[row + 1], ds, cols);
    &&& row_delays_ok(ds, cols)
    &&& post == pre.update(row, p.0).update(row + 1, p.1)
}

/// What the whole propagation phase leaves behind, given all its fall-delay
/// draws.
pub open spec fn fall_post(pre: Seq<Seq<Cell>>, post: Seq<Seq<Cell>>, ds: Seq<Seq<u8>>) -> bool {
    &&& grid_delays_ok(ds, pre.len() as int, pre[0].len() as int)
    &&& post == fall_from_spec(pre, ds, 0)
}

/// What the spawn phase leaves behind, given its spawn and kind draws.
pub open spec fn spawn_post(
    pre: Seq<Seq<Cell>>,
    post: Seq<Seq<Cell>>,
    spawns: Seq<bool>,
    kinds: Seq<u8>,
) -> bool {
    &&& spawns.len() == pre[0].len()
    &&& kinds.len() == pre[0].len()
    &&& kinds_in_range(kinds)
    &&& post == spawn_grid_spec(pre, spawns, kinds)
}

/// One whole tick as a relation between the grid before and after, given
/// the random draws the tick consumed: floor landing, then bottom-up
/// propagation, then top-row spawns.
pub open spec fn tick_post(
    pre: Seq<Seq<Cell>>,
    post: Seq<Seq<Cell>>,
    delays: Seq<Seq<u8>>,
    spawns: Seq<bool>,
    kinds: Seq<u8>,
) -> bool {
    &&& grid_delays_ok(delays, pre.len() as int, pre[0].len() as int)
    &&& spawns.len() == pre[0].len()
    &&& kinds.len() == pre[0].len()
    &&& kinds_in_range(kinds)
    &&& post == spawn_grid_spec(fall_from_spec(land_grid_spec(pre), delays, 0), spawns, kinds)
}

/// The grid after one tick arises from the grid before it by the three
/// phases, for some admissible set of random draws.
pub open spec fn tick_rel(pre: Seq<Seq<Cell>>, post: Seq<Seq<Cell>>) -> bool {
    exists|delays: Seq<Seq<u8>>, spawns: Seq<bool>, kinds: Seq<u8>|
        tick_post(pre, post, delays, spawns, kinds)
}

/// A falling-snow simulation: a `rows x cols` grid of cells, row 0 the top
/// (spawn edge), row `rows - 1` the bottom (floor).
pub struct Snow {
    snow: Vec<Vec<Cell>>,
    rows: u16,
    cols: u16,
}

impl View for Snow {
    type V = Seq<Seq<Cell>>;

    closed spec fn view(&self) -> Seq<Seq<Cell>> {
        Seq::new(self.snow@.len() as nat, |r: int| self.snow@[r]@)
    }
}

impl Snow {
    pub closed spec fn spec_rows(&self) -> u16 {
        self.rows
    }

    pub closed spec fn spec_cols(&self) -> u16 {
        self.cols
    }

    /// Shape and content invariant: the grid is exactly `rows` rows of
    /// `cols` cells each, and every cell is valid.
    pub open spec fn wf(&self) -> bool {
        &&& self@.len() == self.spec_rows() as int
        &&& forall|r: int|
            0 <= r < self@.len() ==> (#[trigger] self@[r]).len() == self.spec_cols() as int
        &&& forall|r: int, c: int|
            0 <= r < self@.len() && 0 <= c < self@[r].len() ==> (#[trigger] self@[r][c]).valid()
    }

    /// A fresh grid of the given dimensions, every cell empty.
    pub fn create(rows: u16, cols: u16) -> (s: Snow)
        ensures
            s.wf(),
            s.spec_rows() == rows,
            s.spec_cols() == cols,
            forall|r: int, c: int|
                0 <= r < rows && 0 <= c < cols ==> s@[r][c] == Cell::Empty,
    {
        let mut grid: Vec<Vec<Cell>> = Vec::new();
        let mut r: u16 = 0;
        while r < rows
            invariant
                r <= rows,
                grid@.len() == r as int,
                forall|i: int|
                    0 <= i < r as int ==> (#[trigger] grid@[i])@.len() == cols as int,
                forall|i: int, j: int|
                    0 <= i < r as int && 0 <= j < cols as int ==> (#[trigger] grid@[i]@[j])
                        == Cell::Empty,
            decreases rows - r,
        {
            let mut row: Vec<Cell> = Vec::new();
            let mut c: u16 = 0;
            while c < cols
                invariant
                    c <= cols,
                    row@.len() == c as int,
                    forall|j: int| 0 <= j < c as int ==> row@[j] == Cell::Empty,
                decreases cols - c,
            {
                row.push(Cell::Empty);
                c = c + 1;
            }
            grid.push(row);
            r = r + 1;
        }
        Snow { snow: grid, rows, cols }
    }

    pub fn rows(&self) -> (r: u16)
        ensures
            r == self.spec_rows(),
    {
        self.rows
    }

    pub fn cols(&self) -> (c: u16)
        ensures
            c == self.spec_cols(),
    {
        self.cols
    }

    /// Read one cell.
    pub fn get(&self, r: u16, c: u16) -> (cell: Cell)
        requires
            self.wf(),
            r < self.spec_rows(),
            c < self.spec_cols(),
        ensures
            cell == self@[r as int][c as int],
    {
        self.snow[r as usize][c as usize]
    }

    /// Write one cell.
    pub fn set(&mut self, r: u16, c: u16, cell: Cell)
        requires
            old(self).wf(),
            r < old(self).spec_rows(),
            c < old(self).spec_cols(),
            cell.valid(),
        ensures
            final(self).wf(),
            final(self).spec_rows() == old(self).spec_rows(),
            final(self).spec_cols() == old(self).spec_cols(),
            final(self)@ == old(self)@.update(
                r as int,
                old(self)@[r as int].update(c as int, cell),
            ),
    {
        proof {
            assert(self@[r as int] == self.snow@[r as int]@);
        }
        self.snow[r as usize][c as usize] = cell;
        proof {
            assert(self@ =~= old(self)@.update(
                r as int,
                old(self)@[r as int].update(c as int, cell),
            ));
        }
    }

    /// The action the propagation phase derives for the cell at `(row, col)` from the
    /// cell itself and the live row below it.
    fn get_action(&self, row: u16, col: u16) -> (a: Action)
        requires
            self.wf(),
            row as int + 1 < self.spec_rows() as int,
            col < self.spec_cols(),
        ensures
            a == action_spec(self@[row as int][col as int], col as usize, self@[row as int + 1]),
    {
        let cell = self.get(row, col);
        match cell {
            Cell::Empty => Action::Nop,
            Cell::Stack(_) => Action::Nop,
            Cell::Flake(kind, delay) => {
                if delay > 0 {
                    Action::Replace(Cell::Flake(kind, delay - 1))
                } else {
                    match self.get(row + 1, col) {
                        Cell::Empty => Action::Move(kind, col as usize),
                        Cell::Flake(_, _) => Action::Replace(Cell::Empty),
                        Cell::Stack(height) => {
                            if col > 0 && self.get(row + 1, col - 1) == Cell::Empty {
                                Action::Move(kind, col as usize - 1)
                            } else if col + 1 < self.cols() && self.get(row + 1, col + 1)
                                == Cell::Empty {
                                Action::Move(kind, col as usize + 1)
                            } else {
                                let mut h_left: u8 = 9;
                                let mut h_right: u8 = 9;
                                if col > 0 {
                                    if let Cell::Stack(zheight) = self.get(row + 1, col - 1) {
                                        h_left = zheight;
                                    }
                                }
                                if col + 1 < self.cols() {
                                    if let Cell::Stack(zheight) = self.get(row + 1, col + 1) {
                                        h_right = zheight;
                                    }
                                }
                                if height <= h_left && height <= h_right {
                                    if height < MAX_HEIGHT {
                                        Action::Pile(height + 1, col as usize)
                                    } else {
                                        Action::Replace(Cell::Stack(1))
                                    }
                                } else if h_right <= h_left {
                                    Action::Pile(h_right + 1, col as usize + 1)
                                } else {
                                    Action::Pile(h_left + 1, col as usize - 1)
                                }
                            }
                        },
                    }
                }
            },
        }
    }

    /// The landing phase: flakes in the bottom row land. An eligible flake becomes
    /// the seed of a new pile, a waiting flake counts down its delay, and
    /// no other row is touched.
    #[verifier::loop_isolation(false)]
    fn land_bottom(&mut self)
        requires
            old(self).wf(),
            old(self).spec_rows() >= 1,
        ensures
            final(self).wf(),
            final(self).spec_rows() == old(self).spec_rows(),
            final(self).spec_cols() == old(self).spec_cols(),
            final(self)@ == land_grid_spec(old(self)@),
    {
        let last = self.rows - 1;
        let cols = self.cols;
        let mut c: u16 = 0;
        while c < cols
            invariant
                self.wf(),
                self.spec_rows() == old(self).spec_rows(),
                self.spec_cols() == old(self).spec_cols(),
                c <= cols,
                forall|r: int|
                    0 <= r < self@.len() && r != last as int ==> #[trigger] self@[r] == old(
                        self,
                    )@[r],
                forall|j: int|
                    0 <= j < c as int ==> #[trigger] self@[last as int][j] == land_spec(
                        old(self)@[last as int][j],
                    ),
                forall|j: int|
                    c as int <= j < cols as int ==> #[trigger] self@[last as int][j] == old(
                        self,
                    )@[last as int][j],
            decreases cols - c,
        {
            let cur = self.get(last, c);
            let landed = match cur {
                Cell::Flake(kind, delay) => if delay == 0 {
                    Cell::Stack(1)
                } else {
                    Cell::Flake(kind, delay - 1)
                },
                _ => cur,
            };
            proof {
                assert(cur == old(self)@[last as int][c as int]);
                assert(landed == land_spec(old(self)@[last as int][c as int]));
            }
            self.set(last, c, landed);
            c = c + 1;
        }
        proof {
            assert(self@ =~~= land_grid_spec(old(self)@));
        }
    }

    /// One propagation row pass: left to right over row `row`, each cell's
    /// action applied against the live row below it.
    #[verifier::loop_isolation(false)]
    fn pass_row<R: RandomSource>(&mut self, row: u16, rng: &mut R)
        requires
            old(self).wf(),
            row as int + 1 < old(self).spec_rows() as int,
        ensures
            final(self).wf(),
            final(self).spec_rows() == old(self).spec_rows(),
            final(self).spec_cols() == old(self).spec_cols(),
            exists|ds: Seq<u8>|
                pass_row_post(
                    old(self)@,
                    final(self)@,
                    row as int,
                    old(self).spec_cols() as int,
                    ds,
                ),
    {
        let cols = self.cols;
        let ghost pre = self@;
        let ghost cur0 = self@[row as int];
        let ghost nxt0 = self@[row as int + 1];
        let mut c: u16 = 0;
        let ghost mut ds: Seq<u8> = Seq::empty();
        while c < cols
            invariant
                self.wf(),
                self.spec_rows() == old(self).spec_rows(),
                self.spec_cols() == old(self).spec_cols(),
                c <= cols,
                ds.len() == c as int,
                forall|i: int| 0 <= i < c as int ==> 1 <= #[trigger] ds[i] <= 5,
                self@ == pre.update(row as int, row_pass_spec(cur0, nxt0, ds, c as int).0).update(
                    row as int + 1,
                    row_pass_spec(cur0, nxt0, ds, c as int).1,
                ),
            decreases cols - c,
        {
            proof {
                lemma_row_pass_props(cur0, nxt0, ds, c as int);
            }
            let ghost p = row_pass_spec(cur0, nxt0, ds, c as int);
            proof {
                assert(self@[row as int] == p.0);
                assert(self@[row as int + 1] == p.1);
                lemma_action_props(p.0[c as int], c as usize, p.1);
            }
            let a = self.get_action(row, c);
            match a {
                Action::Nop => {
                    proof {
                        lemma_row_pass_push(cur0, nxt0, ds, 1u8, c as int);
                        ds = ds.push(1u8);
                        assert(row_pass_spec(cur0, nxt0, ds, c as int + 1) == apply_spec(
                            p.0,
                            p.1,
                            c as usize,
                            1u8,
                        ));
                    }
                },
                Action::Replace(newc) => {
                    self.set(row, c, newc);
                    proof {
                        lemma_row_pass_push(cur0, nxt0, ds, 1u8, c as int);
                        ds = ds.push(1u8);
                        let q = row_pass_spec(cur0, nxt0, ds, c as int + 1);
                        assert(q.0 == p.0.update(c as int, newc) && q.1 == p.1);
                        assert(self@ =~= pre.update(row as int, q.0).update(row as int + 1, q.1));
                    }
                },
                Action::Move(kind, dest) => {
                    let d = rng.fall_delay();
                    self.set(row, c, Cell::Empty);
                    self.set(row + 1, dest as u16, Cell::Flake(kind, d));
                    proof {
                        lemma_row_pass_push(cur0, nxt0, ds, d, c as int);
                        ds = ds.push(d);
                        let q = row_pass_spec(cur0, nxt0, ds, c as int + 1);
                        assert(q.0 == p.0.update(c as int, Cell::Empty) && q.1 == p.1.update(
                            dest as int,
                            Cell::Flake(kind, d),
                        ));
                        assert(self@ =~= pre.update(row as int, q.0).update(row as int + 1, q.1));
                    }
                },
                Action::Pile(height, dest) => {
                    self.set(row, c, Cell::Empty);
                    self.set(row + 1, dest as u16, Cell::Stack(height));
                    proof {
                        lemma_row_pass_push(cur0, nxt0, ds, 1u8, c as int);
                        ds = ds.push(1u8);
                        let q = row_pass_spec(cur0, nxt0, ds, c as int + 1);
                        assert(q.0 == p.0.update(c as int, Cell::Empty) && q.1 == p.1.update(
                            dest as int,
                            Cell::Stack(height),
                        ));
                        assert(self@ =~= pre.update(row as int, q.0).update(row as int + 1, q.1));
                    }
                },
            }
            c = c + 1;
        }
        proof {
            assert(pass_row_post(pre, self@, row as int, cols as int, ds));
        }
    }

    /// The propagation phase: falling flakes advance, row by row from the second
    /// lowest up to the top, so that a flake that moved down is never
    /// reprocessed within the tick.
    #[verifier::loop_isolation(false)]
    fn fall<R: RandomSource>(&mut self, rng: &mut R)
        requires
            old(self).wf(),
            old(self).spec_rows() >= 1,
        ensures
            final(self).wf(),
            final(self).spec_rows() == old(self).spec_rows(),
            final(self).spec_cols() == old(self).spec_cols(),
            exists|ds: Seq<Seq<u8>>| fall_post(old(self)@, final(self)@, ds),
    {
        let ghost pre = self@;
        let ghost rows = self.spec_rows() as int;
        let ghost cols = self.spec_cols() as int;
        let mut r: u16 = self.rows - 1;
        let ghost mut ds: Seq<Seq<u8>> = Seq::new(
            rows as nat,
            |i: int| Seq::new(cols as nat, |j: int| 1u8),
        );
        while r > 0
            invariant
                self.wf(),
                self.spec_rows() == old(self).spec_rows(),
                self.spec_cols() == old(self).spec_cols(),
                r <= rows - 1,
                ds.len() == rows,
                forall|i: int| 0 <= i < rows ==> row_delays_ok(#[trigger] ds[i], cols),
                self@ == fall_from_spec(pre, ds, r as int),
            decreases r,
        {
            r = r - 1;
            let ghost ds_old = ds;
            let ghost g1 = fall_from_spec(pre, ds_old, r as int + 1);
            proof {
                assert(g1 == self@);
                assert(g1[r as int].len() == cols);
            }
            self.pass_row(r, rng);
            proof {
                let rds = choose|rds: Seq<u8>| pass_row_post(g1, self@, r as int, cols, rds);
                ds = ds_old.update(r as int, rds);
                lemma_fall_from_agree(pre, ds_old, ds, r as int + 1);
                let p = row_pass_spec(g1[r as int], g1[r as int + 1], rds, cols);
                assert(self@ == g1.update(r as int, p.0).update(r as int + 1, p.1));
                assert(self@ == fall_from_spec(pre, ds, r as int));
            }
        }
        proof {
            assert(fall_post(pre, self@, ds));
        }
    }

    /// The spawn phase: in each top-row column, with the spawn draw's blessing, a
    /// fresh flake of a drawn kind appears with fall delay 0, overwriting
    /// whatever the cell held.
    #[verifier::loop_isolation(false)]
    fn spawn_top<R: RandomSource>(&mut self, rng: &mut R)
        requires
            old(self).wf(),
            old(self).spec_rows() >= 1,
        ensures
            final(self).wf(),
            final(self).spec_rows() == old(self).spec_rows(),
            final(self).spec_cols() == old(self).spec_cols(),
            exists|sp: Seq<bool>, ks: Seq<u8>| spawn_post(old(self)@, final(self)@, sp, ks),
    {
        let cols = self.cols;
        let ghost pre = self@;
        let mut c: u16 = 0;
        let ghost mut sp: Seq<bool> = Seq::empty();
        let ghost mut ks: Seq<u8> = Seq::empty();
        while c < cols
            invariant
                self.wf(),
                self.spec_rows() == old(self).spec_rows(),
                self.spec_cols() == old(self).spec_cols(),
                c <= cols,
                sp.len() == c as int,
                ks.len() == c as int,
                kinds_in_range(ks),
                forall|r: int| 1 <= r < self@.len() ==> #[trigger] self@[r] == pre[r],
                forall|j: int|
                    0 <= j < c as int ==> #[trigger] self@[0][j] == (if sp[j] {
                        Cell::Flake(Snowflake::from_variant_spec(ks[j]), 0)
                    } else {
                        pre[0][j]
                    }),
                forall|j: int| c as int <= j < cols as int ==> #[trigger] self@[0][j] == pre[0][j],
            decreases cols - c,
        {
            if rng.spawn_flake() {
                let kv = rng.flake_kind();
                let kind = Snowflake::create(kv);
                self.set(0, c, Cell::Flake(kind, 0));
                proof {
                    sp = sp.push(true);
                    ks = ks.push(kv);
                }
            } else {
                proof {
                    sp = sp.push(false);
                    ks = ks.push(1u8);
                }
            }
            c = c + 1;
        }
        proof {
            assert(self@ =~~= spawn_grid_spec(pre, sp, ks));
            assert(spawn_post(pre, self@, sp, ks));
        }
    }

    /// One discrete tick: floor landing, bottom-up propagation, then
    /// top-row spawning, consuming random draws from `rng`.
    pub fn tick<R: RandomSource>(&mut self, rng: &mut R)
        requires
            old(self).wf(),
            old(self).spec_rows() >= 1,
        ensures
            final(self).wf(),
            final(self).spec_rows() == old(self).spec_rows(),
            final(self).spec_cols() == old(self).spec_cols(),
            tick_rel(old(self)@, final(self)@),
    {
        let ghost pre = self@;
        self.land_bottom();
        let ghost mid1 = self@;
        self.fall(rng);
        let ghost mid2 = self@;
        proof {
            assert(mid2[0].len() == self.spec_cols() as int);
        }
        self.spawn_top(rng);
        proof {
            let ds = choose|ds: Seq<Seq<u8>>| fall_post(mid1, mid2, ds);
            let (sp, ks) = choose|sp: Seq<bool>, ks: Seq<u8>| spawn_post(mid2, self@, sp, ks);
            assert(mid1 == land_grid_spec(pre));
            assert(mid1.len() == pre.len());
            assert(mid1[0].len() == pre[0].len());
            assert(tick_post(pre, self@, ds, sp, ks));
        }
    }

    /// The line of glyphs a renderer prints for row `r`.
    #[verifier::loop_isolation(false)]
    pub fn render_row(&self, r: u16) -> (line: Vec<char>)
        requires
            self.wf(),
            r < self.spec_rows(),
        ensures
            line@.len() == self.spec_cols() as int,
            forall|j: int|
                0 <= j < line@.len() ==> #[trigger] line@[j] == self@[r as int][j].glyph_spec(),
    {
        let mut line: Vec<char> = Vec::new();
        let mut c: u16 = 0;
        while c < self.cols
            invariant
                c <= self.spec_cols(),
                line@.len() == c as int,
                forall|j: int|
                    0 <= j < c as int ==> #[trigger] line@[j] == self@[r as int][j].glyph_spec(),
            decreases self.spec_cols() - c,
        {
            let cell = self.get(r, c);
            line.push(cell.glyph());
            c = c + 1;
        }
        line
    }

    /// Throw the old contents away and start over with the new dimensions:
    /// every cell of the resized grid is empty.
    pub fn resize(&mut self, rows: u16, cols: u16)
        ensures
            final(self).wf(),
            final(self).spec_rows() == rows,
            final(self).spec_cols() == cols,
            forall|r: int, c: int|
                0 <= r < rows && 0 <= c < cols ==> final(self)@[r][c] == Cell::Empty,
    {
        *self = Snow::create(rows, cols);
    }
}

/// What any action guarantees about its written cells: replacements are
/// valid cells, and moves and pilings stay inside the destination row,
/// write a valid cell, and a piling only ever grows to `MAX_HEIGHT`.
pub proof fn lemma_action_props(cell: Cell, col: usize, below: Seq<Cell>)
    requires
        cell.valid(),
        (col as int) < below.len(),
        below.len() <= usize::MAX,
        forall|j: int| 0 <= j < below.len() ==> (#[trigger] below[j]).valid(),
    ensures
        match action_spec(cell, col, below) {
            Action::Nop => true,
            Action::Replace(c) => c.valid(),
            Action::Move(kind, dest) => (dest as int) < below.len() && dest as int <= col as int
                + 1 && below[dest as int] == Cell::Empty,
            Action::Pile(height, dest) => (dest as int) < below.len() && dest as int <= col as int
                + 1 && 1 <= height <= MAX_HEIGHT && below[dest as int] is Stack,
        },
{
    match cell {
        Cell::Flake(kind, delay) => {
            if delay == 0 {
                let a = flake_action_spec(kind, col, below);
                match below[col as int] {
                    Cell::Empty => {
                        assert(a == Action::Move(kind, col));
                    },
                    Cell::Flake(_, _) => {},
                    Cell::Stack(height) => {
                        assert(below[col as int].valid());
                        let h_left = left_height(below, col);
                        let h_right = right_height(below, col);
                        if col > 0 && below[col as int - 1] == Cell::Empty {
                            assert(a == Action::Move(kind, (col - 1) as usize));
                            assert((col - 1) as usize as int == col as int - 1);
                        } else if col as int + 1 < below.len() && below[col as int + 1]
                            == Cell::Empty {
                            assert(a == Action::Move(kind, (col + 1) as usize));
                            assert((col + 1) as usize as int == col as int + 1);
                        } else if height <= h_left && height <= h_right {
                        } else if h_right <= h_left {
                            assert(a == Action::Pile((h_right + 1) as u8, (col + 1) as usize));
                            assert(h_right <= 8);
                            assert(col as int + 1 < below.len() && below[col as int + 1]
                                is Stack) by {
                                if !(col as int + 1 < below.len()) || !(below[col as int + 1]
                                    is Stack) {
                                    assert(h_right == 9);
                                    assert(h_left == 9);
                                    assert(height <= h_left && height <= h_right);
                                }
                            }
                        } else {
                            assert(a == Action::Pile((h_left + 1) as u8, (col - 1) as usize));
                            assert(h_left <= 8);
                            assert(col > 0 && below[col as int - 1] is Stack) by {
                                if !(col > 0) || !(below[col as int - 1] is Stack) {
                                    assert(h_left == 9);
                                    assert(h_right <= h_left);
                                }
                            }
                        }
                    },
                }
            }
        },
        _ => {},
    }
}

/// A row pass keeps both rows' lengths, and every cell it writes is valid.
pub proof fn lemma_row_pass_props(cur: Seq<Cell>, nxt: Seq<Cell>, delays: Seq<u8>, n: int)
    requires
        cur.len() == nxt.len(),
        cur.len() <= usize::MAX,
        n <= cur.len(),
        forall|j: int| 0 <= j < cur.len() ==> (#[trigger] cur[j]).valid(),
        forall|j: int| 0 <= j < nxt.len() ==> (#[trigger] nxt[j]).valid(),
        forall|i: int| 0 <= i < n ==> 1 <= #[trigger] delays[i] <= 5,
    ensures
        row_pass_spec(cur, nxt, delays, n).0.len() == cur.len(),
        row_pass_spec(cur, nxt, delays, n).1.len() == nxt.len(),
        forall|j: int|
            0 <= j < cur.len() ==> (#[trigger] row_pass_spec(cur, nxt, delays, n).0[j]).valid(),
        forall|j: int|
            0 <= j < nxt.len() ==> (#[trigger] row_pass_spec(cur, nxt, delays, n).1[j]).valid(),
    decreases n,
{
    if n > 0 {
        lemma_row_pass_props(cur, nxt, delays, n - 1);
        let prev = row_pass_spec(cur, nxt, delays, n - 1);
        lemma_action_props(prev.0[n - 1], (n - 1) as usize, prev.1);
    }
}

/// The first `n` columns of a row pass only read the first `n` delay
/// draws, so a draw appended at the end changes nothing.
pub proof fn lemma_row_pass_push(cur: Seq<Cell>, nxt: Seq<Cell>, delays: Seq<u8>, x: u8, n: int)
    requires
        n <= delays.len(),
    ensures
        row_pass_spec(cur, nxt, delays.push(x), n) == row_pass_spec(cur, nxt, delays, n),
    decreases n,
{
    if n > 0 {
        lemma_row_pass_push(cur, nxt, delays, x, n - 1);
    }
}

/// The passes for rows `r` and below only read the delay rows `r` and
/// below, so two sets of draws that agree there give the same grid.
pub proof fn lemma_fall_from_agree(
    g: Seq<Seq<Cell>>,
    ds1: Seq<Seq<u8>>,
    ds2: Seq<Seq<u8>>,
    r: int,
)
    requires
        forall|i: int| r <= i <= g.len() - 2 ==> #[trigger] ds1[i] == ds2[i],
    ensures
        fall_from_spec(g, ds1, r) == fall_from_spec(g, ds2, r),
    decreases g.len() - r,
{
    if !(r < 0 || r > g.len() - 2) {
        lemma_fall_from_agree(g, ds1, ds2, r + 1);
    }
}

} // verus!
