use vstd::prelude::*;

use crate::cell::{Cell, Snowflake, MAX_HEIGHT};
use crate::engine::{
    action_spec, apply_spec, fall_from_spec, flake_action_spec, grid_delays_ok, land_grid_spec,
    land_spec, left_height, lemma_action_props, lemma_row_pass_props, right_height, row_pass_spec,
    Action,
};

verus! {

/// Landing determinism: an eligible flake (fall delay 0) in the bottom row
/// always becomes the seed pile `Stack(1)` in the floor-landing phase.
pub proof fn lemma_landing_determinism(g: Seq<Seq<Cell>>, c: int, kind: Snowflake)
    requires
        g.len() >= 1,
        0 <= c < g[g.len() - 1].len(),
        g[g.len() - 1][c] == Cell::Flake(kind, 0u8),
    ensures
        land_grid_spec(g)[g.len() - 1][c] == Cell::Stack(1u8),
{
}

/// Conservation under move: a flake whose action is a move (straight down
/// or a lateral slip) leaves its source cell empty and appears, with the
/// drawn delay, in exactly one cell of the destination row, which was
/// empty; no other cell of either row changes.
pub proof fn lemma_move_conservation(
    cur: Seq<Cell>,
    nxt: Seq<Cell>,
    col: usize,
    delay: u8,
    kind: Snowflake,
    dest: usize,
)
    requires
        (col as int) < cur.len(),
        cur.len() == nxt.len(),
        cur.len() <= usize::MAX,
        forall|j: int| 0 <= j < cur.len() ==> (#[trigger] cur[j]).valid(),
        forall|j: int| 0 <= j < nxt.len() ==> (#[trigger] nxt[j]).valid(),
        action_spec(cur[col as int], col, nxt) == Action::Move(kind, dest),
    ensures
        cur[col as int] == Cell::Flake(kind, 0u8),
        (dest as int) < nxt.len(),
        nxt[dest as int] == Cell::Empty,
        apply_spec(cur, nxt, col, delay).0 == cur.update(col as int, Cell::Empty),
        apply_spec(cur, nxt, col, delay).1 == nxt.update(dest as int, Cell::Flake(kind, delay)),
        forall|j: int|
            0 <= j < cur.len() && j != col as int ==> #[trigger] apply_spec(
                cur,
                nxt,
                col,
                delay,
            ).0[j] == cur[j],
        forall|j: int|
            0 <= j < nxt.len() && j != dest as int ==> #[trigger] apply_spec(
                cur,
                nxt,
                col,
                delay,
            ).1[j] == nxt[j],
{
    lemma_action_props(cur[col as int], col, nxt);
}

/// Height bound: whatever cell and surroundings an action is derived
/// from, a pile it writes never exceeds `MAX_HEIGHT`, and a cell it puts
/// in place of the source is itself valid.
pub proof fn lemma_height_bound(cell: Cell, col: usize, below: Seq<Cell>)
    requires
        cell.valid(),
        (col as int) < below.len(),
        below.len() <= usize::MAX,
        forall|j: int| 0 <= j < below.len() ==> (#[trigger] below[j]).valid(),
    ensures
        match action_spec(cell, col, below) {
            Action::Pile(height, _) => 1 <= height <= MAX_HEIGHT,
            Action::Replace(c) => c.valid(),
            _ => true,
        },
{
    lemma_action_props(cell, col, below);
}

/// Height bound, full-pile case: an eligible flake blocked above a full
/// pile, with no escape and no lower neighbour, does not grow the pile;
/// the source cell itself becomes a brand-new `Stack(1)`.
pub proof fn lemma_full_pile_seeds_new(kind: Snowflake, col: usize, below: Seq<Cell>)
    requires
        (col as int) < below.len(),
        below.len() <= usize::MAX,
        below[col as int] == Cell::Stack(MAX_HEIGHT),
        col > 0 ==> below[col as int - 1] != Cell::Empty,
        col as int + 1 < below.len() ==> below[col as int + 1] != Cell::Empty,
        left_height(below, col) >= MAX_HEIGHT,
        right_height(below, col) >= MAX_HEIGHT,
    ensures
        flake_action_spec(kind, col, below) == Action::Replace(Cell::Stack(1u8)),
{
}

/// Pile tie-break: an eligible flake that can neither fall nor slip piles
/// onto the lowest of the three candidate columns, the middle winning all
/// ties and the right winning a tie with the left.
pub proof fn lemma_pile_tiebreak(kind: Snowflake, col: usize, below: Seq<Cell>, height: u8)
    requires
        (col as int) < below.len(),
        below.len() <= usize::MAX,
        below[col as int] == Cell::Stack(height),
        height < MAX_HEIGHT,
        col > 0 ==> below[col as int - 1] != Cell::Empty,
        col as int + 1 < below.len() ==> below[col as int + 1] != Cell::Empty,
    ensures
        height <= left_height(below, col) && height <= right_height(below, col)
            ==> flake_action_spec(kind, col, below) == Action::Pile((height + 1) as u8, col),
        !(height <= left_height(below, col) && height <= right_height(below, col))
            && right_height(below, col) <= left_height(below, col) ==> flake_action_spec(
            kind,
            col,
            below,
        ) == Action::Pile((right_height(below, col) + 1) as u8, (col + 1) as usize),
        !(height <= left_height(below, col) && height <= right_height(below, col)) && left_height(
            below,
            col,
        ) < right_height(below, col) ==> flake_action_spec(kind, col, below) == Action::Pile(
            (left_height(below, col) + 1) as u8,
            (col - 1) as usize,
        ),
{
}

/// 1 for a cell holding a falling flake, 0 for any other cell.
pub open spec fn flake_weight(c: Cell) -> nat {
    if c is Flake {
        1nat
    } else {
        0nat
    }
}

/// Number of falling flakes in one row.
pub open spec fn flakes_in_row(row: Seq<Cell>) -> nat
    decreases row.len(),
{
    if row.len() == 0 {
        0nat
    } else {
        flakes_in_row(row.drop_last()) + flake_weight(row.last())
    }
}

/// Number of falling flakes in the whole grid.
pub open spec fn flakes_in_grid(g: Seq<Seq<Cell>>) -> nat
    decreases g.len(),
{
    if g.len() == 0 {
        0nat
    } else {
        flakes_in_grid(g.drop_last()) + flakes_in_row(g.last())
    }
}

/// Writing one cell changes a row's flake count by the difference of the
/// weights of the new and the old cell.
pub proof fn lemma_flakes_update(row: Seq<Cell>, i: int, v: Cell)
    requires
        0 <= i < row.len(),
    ensures
        flakes_in_row(row.update(i, v)) + flake_weight(row[i]) == flakes_in_row(row)
            + flake_weight(v),
    decreases row.len(),
{
    if i == row.len() - 1 {
        assert(row.update(i, v).drop_last() =~= row.drop_last());
    } else {
        lemma_flakes_update(row.drop_last(), i, v);
        assert(row.update(i, v).drop_last() =~= row.drop_last().update(i, v));
        assert(row.update(i, v).last() == row.last());
    }
}

/// Replacing one row changes the grid's flake count by the difference of
/// the flake counts of the new and the old row.
pub proof fn lemma_grid_flakes_update(g: Seq<Seq<Cell>>, r: int, row: Seq<Cell>)
    requires
        0 <= r < g.len(),
    ensures
        flakes_in_grid(g.update(r, row)) + flakes_in_row(g[r]) == flakes_in_grid(g)
            + flakes_in_row(row),
    decreases g.len(),
{
    if r == g.len() - 1 {
        assert(g.update(r, row).drop_last() =~= g.drop_last());
    } else {
        lemma_grid_flakes_update(g.drop_last(), r, row);
        assert(g.update(r, row).drop_last() =~= g.drop_last().update(r, row));
        assert(g.update(r, row).last() == g.last());
    }
}

/// A row whose cells weigh pointwise no more than another's holds no more
/// flakes.
pub proof fn lemma_row_weight_le(s: Seq<Cell>, t: Seq<Cell>)
    requires
        s.len() == t.len(),
        forall|i: int| 0 <= i < s.len() ==> flake_weight(#[trigger] t[i]) <= flake_weight(s[i]),
    ensures
        flakes_in_row(t) <= flakes_in_row(s),
    decreases s.len(),
{
    if s.len() > 0 {
        assert(forall|i: int|
            0 <= i < s.len() - 1 ==> flake_weight(#[trigger] t.drop_last()[i]) <= flake_weight(
                s.drop_last()[i],
            ));
        lemma_row_weight_le(s.drop_last(), t.drop_last());
    }
}

/// One applied action never increases the number of flakes across the two
/// rows it touches: a move carries its one flake, everything else keeps or
/// destroys flakes.
pub proof fn lemma_apply_no_duplication(cur: Seq<Cell>, nxt: Seq<Cell>, col: usize, delay: u8)
    requires
        (col as int) < cur.len(),
        cur.len() == nxt.len(),
        cur.len() <= usize::MAX,
        forall|j: int| 0 <= j < cur.len() ==> (#[trigger] cur[j]).valid(),
        forall|j: int| 0 <= j < nxt.len() ==> (#[trigger] nxt[j]).valid(),
    ensures
        flakes_in_row(apply_spec(cur, nxt, col, delay).0) + flakes_in_row(
            apply_spec(cur, nxt, col, delay).1,
        ) <= flakes_in_row(cur) + flakes_in_row(nxt),
{
    lemma_action_props(cur[col as int], col, nxt);
    match action_spec(cur[col as int], col, nxt) {
        Action::Nop => {},
        Action::Replace(c) => {
            assert(cur[col as int] is Flake);
            lemma_flakes_update(cur, col as int, c);
        },
        Action::Move(kind, dest) => {
            assert(cur[col as int] is Flake);
            lemma_flakes_update(cur, col as int, Cell::Empty);
            lemma_flakes_update(nxt, dest as int, Cell::Flake(kind, delay));
        },
        Action::Pile(height, dest) => {
            assert(cur[col as int] is Flake);
            lemma_flakes_update(cur, col as int, Cell::Empty);
            lemma_flakes_update(nxt, dest as int, Cell::Stack(height));
        },
    }
}

/// A whole row pass never increases the number of flakes across its two
/// rows.
pub proof fn lemma_row_pass_no_duplication(cur: Seq<Cell>, nxt: Seq<Cell>, delays: Seq<u8>, n: int)
    requires
        cur.len() == nxt.len(),
        cur.len() <= usize::MAX,
        n <= cur.len(),
        forall|j: int| 0 <= j < cur.len() ==> (#[trigger] cur[j]).valid(),
        forall|j: int| 0 <= j < nxt.len() ==> (#[trigger] nxt[j]).valid(),
        forall|i: int| 0 <= i < n ==> 1 <= #[trigger] delays[i] <= 5,
    ensures
        flakes_in_row(row_pass_spec(cur, nxt, delays, n).0) + flakes_in_row(
            row_pass_spec(cur, nxt, delays, n).1,
        ) <= flakes_in_row(cur) + flakes_in_row(nxt),
    decreases n,
{
    if n > 0 {
        lemma_row_pass_no_duplication(cur, nxt, delays, n - 1);
        lemma_row_pass_props(cur, nxt, delays, n - 1);
        let prev = row_pass_spec(cur, nxt, delays, n - 1);
        lemma_apply_no_duplication(prev.0, prev.1, (n - 1) as usize, delays[n - 1]);
    }
}

/// A grid of uniform row length whose cells are all valid.
pub open spec fn grid_cells_ok(g: Seq<Seq<Cell>>, cols: int) -> bool {
    &&& 0 <= cols <= usize::MAX
    &&& forall|r: int| 0 <= r < g.len() ==> (#[trigger] g[r]).len() == cols
    &&& forall|r: int, c: int|
        0 <= r < g.len() && 0 <= c < cols ==> (#[trigger] g[r][c]).valid()
}

/// The propagation phase preserves the grid's shape and cell validity.
pub proof fn lemma_fall_from_props(g: Seq<Seq<Cell>>, ds: Seq<Seq<u8>>, r: int, cols: int)
    requires
        grid_cells_ok(g, cols),
        grid_delays_ok(ds, g.len() as int, cols),
    ensures
        fall_from_spec(g, ds, r).len() == g.len(),
        grid_cells_ok(fall_from_spec(g, ds, r), cols),
    decreases g.len() - r,
{
    if !(r < 0 || r > g.len() - 2) {
        lemma_fall_from_props(g, ds, r + 1, cols);
        let g1 = fall_from_spec(g, ds, r + 1);
        lemma_row_pass_props(g1[r], g1[r + 1], ds[r], cols);
    }
}

/// The whole propagation phase never increases the number of flakes in
/// the grid.
pub proof fn lemma_fall_from_no_duplication(g: Seq<Seq<Cell>>, ds: Seq<Seq<u8>>, r: int, cols: int)
    requires
        grid_cells_ok(g, cols),
        grid_delays_ok(ds, g.len() as int, cols),
    ensures
        flakes_in_grid(fall_from_spec(g, ds, r)) <= flakes_in_grid(g),
    decreases g.len() - r,
{
    if !(r < 0 || r > g.len() - 2) {
        lemma_fall_from_no_duplication(g, ds, r + 1, cols);
        lemma_fall_from_props(g, ds, r + 1, cols);
        let g1 = fall_from_spec(g, ds, r + 1);
        lemma_row_pass_props(g1[r], g1[r + 1], ds[r], cols);
        lemma_row_pass_no_duplication(g1[r], g1[r + 1], ds[r], cols);
        let p = row_pass_spec(g1[r], g1[r + 1], ds[r], cols);
        lemma_grid_flakes_update(g1, r, p.0);
        let g2 = g1.update(r, p.0);
        assert(g2[r + 1] == g1[r + 1]);
        lemma_grid_flakes_update(g2, r + 1, p.1);
    }
}

/// The landing phase preserves shape and validity and never adds a flake.
pub proof fn lemma_land_props(g: Seq<Seq<Cell>>, cols: int)
    requires
        g.len() >= 1,
        grid_cells_ok(g, cols),
    ensures
        land_grid_spec(g).len() == g.len(),
        grid_cells_ok(land_grid_spec(g), cols),
        flakes_in_grid(land_grid_spec(g)) <= flakes_in_grid(g),
{
    let last = g.len() - 1;
    let newrow = Seq::new(g[last].len(), |c: int| land_spec(g[last][c]));
    lemma_row_weight_le(g[last], newrow);
    lemma_grid_flakes_update(g, last, newrow);
}

/// Conservation, globally: over the landing and propagation phases of a
/// tick the number of falling flakes never increases — a flake that moves
/// is never duplicated, and flakes only ever vanish by landing, merging or
/// piling. Only the spawn phase can add flakes.
pub proof fn lemma_tick_never_duplicates(pre: Seq<Seq<Cell>>, ds: Seq<Seq<u8>>, cols: int)
    requires
        pre.len() >= 1,
        grid_cells_ok(pre, cols),
        grid_delays_ok(ds, pre.len() as int, cols),
    ensures
        flakes_in_grid(fall_from_spec(land_grid_spec(pre), ds, 0)) <= flakes_in_grid(pre),
{
    lemma_land_props(pre, cols);
    lemma_fall_from_no_duplication(land_grid_spec(pre), ds, 0, cols);
}

/// No-neighbour fallback: in a single-column grid an eligible flake above
/// a pile that is not yet full always piles onto that pile.
pub proof fn lemma_no_neighbor_fallback(kind: Snowflake, below: Seq<Cell>, height: u8)
    requires
        below.len() == 1,
        below[0] == Cell::Stack(height),
        1 <= height < MAX_HEIGHT,
    ensures
        flake_action_spec(kind, 0, below) == Action::Pile((height + 1) as u8, 0),
{
}

} // verus!
