//! How many cells of a grid have a property: what the walks that change one
//! cell after another use to show that they end.

use vstd::prelude::*;
use vstd::arithmetic::div_mod::{
    lemma_div_pos_is_pos, lemma_fundamental_div_mod, lemma_fundamental_div_mod_converse,
    lemma_mod_bound,
    lemma_multiply_divide_lt,
};
use vstd::set_lib::{lemma_int_range, lemma_len_subset, set_int_range};
use crate::world::tile::Tile;
use crate::world_generator::spawning_tools::grid::inside;

verus! {

/// The cells of a grid of side `size`, numbered row by row, whose tile has
/// the property `p`.
pub open spec fn cells_where(map: Vec<Vec<Tile>>, size: int, p: spec_fn(Tile) -> bool) -> Set<int> {
    Set::new(|k: int| 0 <= k < size * size && p(map[k / size][k % size]))
}

/// How many cells have the property `p`.
pub open spec fn count_where(map: Vec<Vec<Tile>>, size: int, p: spec_fn(Tile) -> bool) -> nat {
    cells_where(map, size, p).len()
}

/// A cell's number names its row and column.
pub proof fn lemma_cell_number(size: int, k: int)
    requires
        0 < size,
        0 <= k < size * size,
    ensures
        inside(size, k / size, k % size),
{
    lemma_mod_bound(k, size);
    lemma_div_pos_is_pos(k, size);
    lemma_multiply_divide_lt(k, size, size);
}

/// No more cells have a property than there are cells.
pub proof fn lemma_count_bounded(map: Vec<Vec<Tile>>, size: int, p: spec_fn(Tile) -> bool)
    requires
        0 <= size,
    ensures
        cells_where(map, size, p).finite(),
        count_where(map, size, p) <= size * size,
{
    assert(0 <= size * size) by (nonlinear_arith)
        requires
            0 <= size,
    ;
    lemma_int_range(0, size * size);
    assert(cells_where(map, size, p).subset_of(set_int_range(0, size * size)));
    lemma_len_subset(cells_where(map, size, p), set_int_range(0, size * size));
}

/// Where no cell gains the property, no more cells have it than before.
pub proof fn lemma_count_shrinks(
    before: Vec<Vec<Tile>>,
    after: Vec<Vec<Tile>>,
    size: int,
    p: spec_fn(Tile) -> bool,
)
    requires
        0 <= size,
        forall|r: int, c: int|
            inside(size, r, c) && p(#[trigger] after[r][c]) ==> p(before[r][c]),
    ensures
        count_where(after, size, p) <= count_where(before, size, p),
{
    lemma_count_bounded(before, size, p);
    let a = cells_where(after, size, p);
    let b = cells_where(before, size, p);
    assert forall|k: int| a.contains(k) implies b.contains(k) by {
        lemma_cell_number(size, k);
        assert(p(after[k / size][k % size]));
    }
    lemma_len_subset(a, b);
}

/// Where the cell at `(r, c)` loses the property and no cell gains it,
/// fewer cells have it than before.
pub proof fn lemma_count_drops(
    before: Vec<Vec<Tile>>,
    after: Vec<Vec<Tile>>,
    size: int,
    p: spec_fn(Tile) -> bool,
    r: int,
    c: int,
)
    requires
        inside(size, r, c),
        p(before[r][c]),
        !p(after[r][c]),
        forall|i: int, j: int|
            inside(size, i, j) && p(#[trigger] after[i][j]) ==> p(before[i][j]),
    ensures
        count_where(after, size, p) < count_where(before, size, p),
{
    lemma_count_bounded(before, size, p);
    let a = cells_where(after, size, p);
    let b = cells_where(before, size, p);
    let k0 = r * size + c;
    lemma_fundamental_div_mod_converse(k0, size, r, c);
    assert(0 <= k0 < size * size) by (nonlinear_arith)
        requires
            0 <= r < size,
            0 <= c < size,
            k0 == r * size + c,
    ;
    assert(b.contains(k0));
    assert forall|k: int| a.contains(k) implies b.remove(k0).contains(k) by {
        lemma_cell_number(size, k);
        assert(p(after[k / size][k % size]));
    }
    lemma_len_subset(a, b.remove(k0));
}

} // verus!

verus! {

/// Another number names another cell.
pub proof fn lemma_other_cell(size: int, k: int, r: int, c: int)
    requires
        0 < size,
        k != r * size + c,
    ensures
        !(k / size == r && k % size == c),
{
    lemma_fundamental_div_mod(k, size);
    assert(size * (k / size) == (k / size) * size) by (nonlinear_arith);
}

/// Where two grids differ in the cell at `(r, c)` alone, the numbers of
/// cells that have a property differ by one at most.
pub proof fn lemma_count_one_cell(
    before: Vec<Vec<Tile>>,
    after: Vec<Vec<Tile>>,
    size: int,
    p: spec_fn(Tile) -> bool,
    r: int,
    c: int,
)
    requires
        inside(size, r, c),
        forall|i: int, j: int|
            inside(size, i, j) && !(i == r && j == c) ==> p(#[trigger] after[i][j]) == p(
                before[i][j],
            ),
    ensures
        count_where(before, size, p) <= count_where(after, size, p) + 1,
        count_where(after, size, p) <= count_where(before, size, p) + 1,
{
    lemma_count_bounded(before, size, p);
    lemma_count_bounded(after, size, p);
    let a = cells_where(after, size, p);
    let b = cells_where(before, size, p);
    let k0 = r * size + c;
    lemma_fundamental_div_mod_converse(k0, size, r, c);
    assert forall|k: int| a.contains(k) implies b.insert(k0).contains(k) by {
        lemma_cell_number(size, k);
        if k != k0 {
            lemma_other_cell(size, k, r, c);
            assert(p(after[k / size][k % size]) == p(before[k / size][k % size]));
        }
    }
    assert forall|k: int| b.contains(k) implies a.insert(k0).contains(k) by {
        lemma_cell_number(size, k);
        if k != k0 {
            lemma_other_cell(size, k, r, c);
            assert(p(after[k / size][k % size]) == p(before[k / size][k % size]));
        }
    }
    lemma_len_subset(a, b.insert(k0));
    lemma_len_subset(b, a.insert(k0));
}

/// The cells numbered below `k` whose tile has the property `p`.
pub open spec fn cells_below(
    map: Vec<Vec<Tile>>,
    size: int,
    p: spec_fn(Tile) -> bool,
    k: int,
) -> Set<int> {
    Set::new(|j: int| 0 <= j < k && j < size * size && p(map[j / size][j % size]))
}

/// Counting one cell more adds it if it has the property.
pub proof fn lemma_count_step(map: Vec<Vec<Tile>>, size: int, p: spec_fn(Tile) -> bool, k: int)
    requires
        0 < size,
        0 <= k < size * size,
    ensures
        cells_below(map, size, p, k).finite(),
        cells_below(map, size, p, k).len() <= k,
        cells_below(map, size, p, k + 1).len() == cells_below(map, size, p, k).len() + (if p(
            map[k / size][k % size],
        ) {
            1int
        } else {
            0int
        }),
        cells_below(map, size, p, size * size) == cells_where(map, size, p),
{
    lemma_int_range(0, k);
    lemma_len_subset(cells_below(map, size, p, k), set_int_range(0, k));
    if p(map[k / size][k % size]) {
        assert(cells_below(map, size, p, k + 1) =~= cells_below(map, size, p, k).insert(k));
    } else {
        assert(cells_below(map, size, p, k + 1) =~= cells_below(map, size, p, k));
    }
    assert(cells_below(map, size, p, size * size) =~= cells_where(map, size, p));
}

/// The number of the cell at `(r, c)`.
pub proof fn lemma_number_of_cell(size: int, r: int, c: int)
    requires
        inside(size, r, c),
    ensures
        0 <= r * size + c < size * size,
        (r * size + c) / size == r,
        (r * size + c) % size == c,
        r * size + size == (r + 1) * size,
{
    lemma_fundamental_div_mod_converse(r * size + c, size, r, c);
    assert(0 <= r * size + c < size * size) by (nonlinear_arith)
        requires
            0 <= r < size,
            0 <= c < size,
    ;
    assert(r * size + size == (r + 1) * size) by (nonlinear_arith);
}

} // verus!

verus! {

/// The cells of a grid of side `size`, numbered row by row, that have the
/// property `q` of their row and column.
pub open spec fn cells_at(size: int, q: spec_fn(int, int) -> bool) -> Set<int> {
    Set::new(|k: int| 0 <= k < size * size && q(k / size, k % size))
}

/// How many cells have the property `q`.
pub open spec fn count_at(size: int, q: spec_fn(int, int) -> bool) -> nat {
    cells_at(size, q).len()
}

/// Where every cell that has one property has another, no more cells have
/// the first than the second; and fewer have it where the cell at `(r, c)`
/// has the second alone.
pub proof fn lemma_count_at(
    size: int,
    fewer: spec_fn(int, int) -> bool,
    more: spec_fn(int, int) -> bool,
    r: int,
    c: int,
)
    requires
        0 <= size,
        forall|i: int, j: int| inside(size, i, j) && #[trigger] fewer(i, j) ==> more(i, j),
    ensures
        cells_at(size, more).finite(),
        count_at(size, fewer) <= count_at(size, more),
        inside(size, r, c) && more(r, c) && !fewer(r, c) ==> count_at(size, fewer) < count_at(
            size,
            more,
        ),
{
    assert(0 <= size * size) by (nonlinear_arith)
        requires
            0 <= size,
    ;
    lemma_int_range(0, size * size);
    let a = cells_at(size, fewer);
    let b = cells_at(size, more);
    assert(b.subset_of(set_int_range(0, size * size)));
    lemma_len_subset(b, set_int_range(0, size * size));
    assert forall|k: int| a.contains(k) implies b.contains(k) by {
        lemma_cell_number(size, k);
        assert(fewer(k / size, k % size));
    }
    lemma_len_subset(a, b);
    if inside(size, r, c) && more(r, c) && !fewer(r, c) {
        let k0 = r * size + c;
        lemma_number_of_cell(size, r, c);
        assert(b.contains(k0));
        assert forall|k: int| a.contains(k) implies b.remove(k0).contains(k) by {
            lemma_cell_number(size, k);
            assert(fewer(k / size, k % size));
        }
        lemma_len_subset(a, b.remove(k0));
    }
}

/// Where two properties agree on every cell but the one at `(r, c)`, the
/// numbers of cells that have them differ by one at most, and are the same
/// where they agree on that cell, too.
pub proof fn lemma_count_at_one(
    size: int,
    before: spec_fn(int, int) -> bool,
    after: spec_fn(int, int) -> bool,
    r: int,
    c: int,
)
    requires
        inside(size, r, c),
        forall|i: int, j: int|
            inside(size, i, j) && !(i == r && j == c) ==> #[trigger] after(i, j) == before(i, j),
    ensures
        count_at(size, before) <= count_at(size, after) + 1,
        count_at(size, after) <= count_at(size, before) + 1,
        after(r, c) == before(r, c) ==> count_at(size, after) == count_at(size, before),
        after(r, c) && !before(r, c) ==> count_at(size, after) == count_at(size, before) + 1,
{
    let a = cells_at(size, after);
    let b = cells_at(size, before);
    let k0 = r * size + c;
    lemma_number_of_cell(size, r, c);
    lemma_count_at(size, before, before, r, c);
    lemma_count_at(size, after, after, r, c);
    assert forall|k: int| a.contains(k) implies b.insert(k0).contains(k) by {
        lemma_cell_number(size, k);
        if k != k0 {
            lemma_other_cell(size, k, r, c);
            assert(after(k / size, k % size) == before(k / size, k % size));
        }
    }
    assert forall|k: int| b.contains(k) implies a.insert(k0).contains(k) by {
        lemma_cell_number(size, k);
        if k != k0 {
            lemma_other_cell(size, k, r, c);
            assert(after(k / size, k % size) == before(k / size, k % size));
        }
    }
    lemma_len_subset(a, b.insert(k0));
    lemma_len_subset(b, a.insert(k0));
    if after(r, c) == before(r, c) {
        assert(a =~= b) by {
            assert forall|k: int| a.contains(k) == b.contains(k) by {
                if 0 <= k < size * size {
                    lemma_cell_number(size, k);
                    if k != k0 {
                        lemma_other_cell(size, k, r, c);
                        assert(after(k / size, k % size) == before(k / size, k % size));
                    }
                }
            }
        }
    }
    if after(r, c) && !before(r, c) {
        assert(a.contains(k0));
        assert(!b.contains(k0));
        assert forall|k: int| b.contains(k) implies a.remove(k0).contains(k) by {
            lemma_cell_number(size, k);
            lemma_other_cell(size, k, r, c);
            assert(after(k / size, k % size) == before(k / size, k % size));
        }
        lemma_len_subset(b, a.remove(k0));
    }
}

} // verus!
