//! The passes that turn heights into a world.

use vstd::prelude::*;
use rand::rngs::StdRng;
use crate::utils::constants::MAX_WORLD_SIZE;
use crate::utils::random::next_word;
use crate::world::tile::{lemma_kind_decides, lemma_to_value_keeps_kind, Content, Tile};
use crate::world_generator::content_options::OxAgContentOptions;
use crate::world_generator::spawning_tools::batch_spawn::{
    batch_limit, batch_limit_spec, batch_placed,
};
use crate::world_generator::spawning_tools::circle_spawn::{stamped, stamps_only};
use crate::world_generator::spawning_tools::grid::{
    content_fits, inside, pick_cell, same_terrain, some_wanted, square, wanted_at, Wanted,
};
use crate::world_generator::spawning_tools::matrix_spawn::HeightMap;
use crate::world_generator::spawning_tools::random_spawn::{
    asks_for_some, holders, holders_spec, lies_somewhere, placing, spawn_number, spawn_number_ok,
    spread_randomly,
};

pub mod batch_spawn;
pub mod circle_spawn;
pub mod grid;
pub mod lava_spawn;
pub mod matrix_spawn;
pub mod maze;
pub mod measure;
pub mod paths;
pub mod random_spawn;
pub mod river_spawn;
pub mod street_spawn;

verus! {

/// A square grid of tiles on its way to becoming a world.
#[derive(Debug)]
pub struct TileMat {
    pub map: Vec<Vec<Tile>>,
    pub with_info: bool,
    pub seed: u64,
    pub size: usize,
}

/// The placing of contents on a grid, which stops whenever a batch needs a
/// field of heights and goes on when it is given one.
pub struct ContentSpawner {
    pub mat: TileMat,
    /// The kinds to place, in order, each with its options.
    pub content_options: Vec<(Content, OxAgContentOptions)>,
    /// How many of the kinds have been taken up.
    pub next: usize,
    /// The kind whose batches are being placed.
    pub batch_kind: Content,
    /// The radius of its batches.
    pub batch_radius: usize,
    /// How many of its batches are still to come.
    pub batches_left: usize,
    /// The center of the batch that waits for its field.
    pub pending: Option<(usize, usize)>,
    /// Where a robot starts, once every kind has been placed.
    pub spawn: Option<(usize, usize)>,
    /// The grid as it was before any content was placed.
    pub origin: Ghost<Vec<Vec<Tile>>>,
}

/// What the placing of contents does next.
#[derive(Clone, Copy, Debug, PartialEq, Eq, Structural)]
pub enum SpawnStep {
    /// It waits for a square field of heights of side `size` made from
    /// `seed`.
    NeedField { seed: u32, size: usize },
    /// Every kind has been placed and the start has been chosen.
    Done,
}

/// The entry has its kind placed: the kind is present and has a share.
pub open spec fn placed_kind(entry: (Content, OxAgContentOptions)) -> bool {
    entry.1.is_present && entry.1.percentage > 0
}

/// `now` is the tile `before`, or the tile `before` with a content that its
/// terrain can hold, of one of `kinds` that is present and has a share.
pub open spec fn spread(kinds: Seq<(Content, OxAgContentOptions)>, before: Tile, now: Tile) -> bool {
    ||| now == before
    ||| {
        &&& now.tile_type == before.tile_type
        &&& now.elevation == before.elevation
        &&& exists|k: int|
            0 <= k < kinds.len() && before.tile_type.can_hold_spec((#[trigger] kinds[k]).0)
                && now.content.placed_as(kinds[k].0.to_default_spec()) && placed_kind(kinds[k])
    }
}

/// Where no kind of `kinds` is present with a share, placing leaves every
/// cell as it was.
pub proof fn lemma_absent_spreads_nothing(
    kinds: Seq<(Content, OxAgContentOptions)>,
    before: Vec<Vec<Tile>>,
    now: Vec<Vec<Tile>>,
    size: int,
)
    requires
        spread_only(kinds, before, now, size),
        forall|k: int| 0 <= k < kinds.len() ==> !placed_kind(#[trigger] kinds[k]),
    ensures
        forall|r: int, c: int| inside(size, r, c) ==> (#[trigger] now[r][c]) == before[r][c],
{
    assert forall|r: int, c: int| inside(size, r, c) implies (#[trigger] now[r][c])
        == before[r][c] by {
        assert(spread(kinds, before[r][c], now[r][c]));
    }
}

/// Between `before` and `now` nothing has happened but that contents of
/// `kinds` were placed on cells that can hold them.
pub open spec fn spread_only(
    kinds: Seq<(Content, OxAgContentOptions)>,
    before: Vec<Vec<Tile>>,
    now: Vec<Vec<Tile>>,
    size: int,
) -> bool {
    &&& square(before, size)
    &&& square(now, size)
    &&& forall|r: int, c: int| inside(size, r, c) ==> spread(kinds, before[r][c], #[trigger] now[r][c])
}

/// The entry asks for its kind to be spread cell by cell, in a number that
/// is at least one whatever is drawn, on a grid that has a cell for it.
pub open spec fn demands(
    entry: (Content, OxAgContentOptions),
    map: Vec<Vec<Tile>>,
    size: int,
) -> bool {
    &&& entry.1.is_present
    &&& entry.1.percentage > 0
    &&& !entry.1.in_batches
    &&& asks_for_some(entry.1)
    &&& some_wanted(map, None, Wanted::Holder(entry.0.to_default_spec()), 0, size)
}

/// While contents of `kinds` were placed between the grids `origin` and
/// `map`, a content of the kind of `kind` lay on the grid at some time: on
/// a grid `then` that placing leads to from `origin`, and from which
/// placing leads to `map`.
pub open spec fn lay_once(
    kinds: Seq<(Content, OxAgContentOptions)>,
    kind: Content,
    origin: Vec<Vec<Tile>>,
    map: Vec<Vec<Tile>>,
    size: int,
) -> bool {
    exists|then: Vec<Vec<Tile>>|
        spread_only(kinds, origin, then, size) && #[trigger] lies_somewhere(then, size, kind)
            && spread_only(kinds, then, map, size)
}

/// Each of the entries from `from` up to, but not including, `next` that
/// demands its kind on the grid `origin` has had it placed on the way from
/// `origin` to `map`.
pub open spec fn served(
    kinds: Seq<(Content, OxAgContentOptions)>,
    from: int,
    next: int,
    origin: Vec<Vec<Tile>>,
    map: Vec<Vec<Tile>>,
    size: int,
) -> bool {
    forall|k: int|
        from <= k < next && 0 <= k < kinds.len() && demands(#[trigger] kinds[k], origin, size)
            ==> lay_once(kinds, kinds[k].0.to_default_spec(), origin, map, size)
}

/// Placing nothing is placing.
pub proof fn lemma_spread_same(
    kinds: Seq<(Content, OxAgContentOptions)>,
    map: Vec<Vec<Tile>>,
    size: int,
)
    requires
        square(map, size),
    ensures
        spread_only(kinds, map, map, size),
{
}

/// Placing contents leaves the demands of the entries as they are.
pub proof fn lemma_spread_keeps_demands(
    kinds: Seq<(Content, OxAgContentOptions)>,
    before: Vec<Vec<Tile>>,
    now: Vec<Vec<Tile>>,
    size: int,
    entry: (Content, OxAgContentOptions),
)
    requires
        spread_only(kinds, before, now, size),
    ensures
        demands(entry, now, size) == demands(entry, before, size),
{
    let kind = entry.0.to_default_spec();
    if demands(entry, now, size) {
        let w = choose|r: int, c: int|
            0 <= r < size && 0 <= c < size && #[trigger] wanted_at(
                now,
                None,
                Wanted::Holder(kind),
                r,
                c,
            );
        assert(spread(kinds, before[w.0][w.1], now[w.0][w.1]));
        assert(wanted_at(before, None, Wanted::Holder(kind), w.0, w.1));
    }
    if demands(entry, before, size) {
        let w = choose|r: int, c: int|
            0 <= r < size && 0 <= c < size && #[trigger] wanted_at(
                before,
                None,
                Wanted::Holder(kind),
                r,
                c,
            );
        assert(spread(kinds, before[w.0][w.1], now[w.0][w.1]));
        assert(wanted_at(now, None, Wanted::Holder(kind), w.0, w.1));
    }
}

/// What has lain on the grid once has done so whatever is placed later.
pub proof fn lemma_lay_goes_on(
    kinds: Seq<(Content, OxAgContentOptions)>,
    kind: Content,
    origin: Vec<Vec<Tile>>,
    map: Vec<Vec<Tile>>,
    later: Vec<Vec<Tile>>,
    size: int,
)
    requires
        lay_once(kinds, kind, origin, map, size),
        spread_only(kinds, map, later, size),
    ensures
        lay_once(kinds, kind, origin, later, size),
{
    let then = choose|then: Vec<Vec<Tile>>|
        spread_only(kinds, origin, then, size) && #[trigger] lies_somewhere(then, size, kind)
            && spread_only(kinds, then, map, size);
    lemma_spread_chain(kinds, then, map, later, size);
}

/// What has lain on the grid since some placing has done so since the
/// beginning.
pub proof fn lemma_lay_from_before(
    kinds: Seq<(Content, OxAgContentOptions)>,
    kind: Content,
    origin: Vec<Vec<Tile>>,
    start: Vec<Vec<Tile>>,
    map: Vec<Vec<Tile>>,
    size: int,
)
    requires
        spread_only(kinds, origin, start, size),
        lay_once(kinds, kind, start, map, size),
    ensures
        lay_once(kinds, kind, origin, map, size),
{
    let then = choose|then: Vec<Vec<Tile>>|
        spread_only(kinds, start, then, size) && #[trigger] lies_somewhere(then, size, kind)
            && spread_only(kinds, then, map, size);
    lemma_spread_chain(kinds, origin, start, then, size);
}

/// The entries that were served stay served whatever is placed later.
pub proof fn lemma_served_goes_on(
    kinds: Seq<(Content, OxAgContentOptions)>,
    from: int,
    next: int,
    origin: Vec<Vec<Tile>>,
    map: Vec<Vec<Tile>>,
    later: Vec<Vec<Tile>>,
    size: int,
)
    requires
        served(kinds, from, next, origin, map, size),
        spread_only(kinds, map, later, size),
    ensures
        served(kinds, from, next, origin, later, size),
{
    assert forall|k: int|
        from <= k < next && 0 <= k < kinds.len() && demands(
            #[trigger] kinds[k],
            origin,
            size,
        ) implies lay_once(kinds, kinds[k].0.to_default_spec(), origin, later, size) by {
        lemma_lay_goes_on(kinds, kinds[k].0.to_default_spec(), origin, map, later, size);
    }
}

/// The entries that were served since some placing were served since the
/// beginning.
pub proof fn lemma_served_from_before(
    kinds: Seq<(Content, OxAgContentOptions)>,
    from: int,
    next: int,
    origin: Vec<Vec<Tile>>,
    start: Vec<Vec<Tile>>,
    map: Vec<Vec<Tile>>,
    size: int,
)
    requires
        spread_only(kinds, origin, start, size),
        served(kinds, from, next, start, map, size),
    ensures
        served(kinds, from, next, origin, map, size),
{
    assert forall|k: int|
        from <= k < next && 0 <= k < kinds.len() && demands(
            #[trigger] kinds[k],
            origin,
            size,
        ) implies lay_once(kinds, kinds[k].0.to_default_spec(), origin, map, size) by {
        lemma_spread_keeps_demands(kinds, origin, start, size, kinds[k]);
        lemma_lay_from_before(kinds, kinds[k].0.to_default_spec(), origin, start, map, size);
    }
}

/// The entries served before a placing and those served in it are served
/// after it.
pub proof fn lemma_served_joined(
    kinds: Seq<(Content, OxAgContentOptions)>,
    at: int,
    next: int,
    origin: Vec<Vec<Tile>>,
    start: Vec<Vec<Tile>>,
    map: Vec<Vec<Tile>>,
    size: int,
)
    requires
        spread_only(kinds, origin, start, size),
        served(kinds, 0, at, origin, start, size),
        spread_only(kinds, start, map, size),
        served(kinds, at, next, start, map, size),
    ensures
        spread_only(kinds, origin, map, size),
        served(kinds, 0, next, origin, map, size),
{
    lemma_spread_chain(kinds, origin, start, map, size);
    lemma_served_goes_on(kinds, 0, at, origin, start, map, size);
    lemma_served_from_before(kinds, at, next, origin, start, map, size);
}

/// With the entry numbered `at` taken up, the entries up to it are served:
/// placing has led from `before` to `after`, and where the entry demands
/// its kind, that kind lies on `after`.
pub proof fn lemma_entry_served(
    kinds: Seq<(Content, OxAgContentOptions)>,
    from: int,
    at: int,
    start: Vec<Vec<Tile>>,
    before: Vec<Vec<Tile>>,
    after: Vec<Vec<Tile>>,
    size: int,
)
    requires
        0 <= at < kinds.len(),
        spread_only(kinds, start, before, size),
        spread_only(kinds, before, after, size),
        served(kinds, from, at, start, before, size),
        demands(kinds[at], before, size) ==> lies_somewhere(
            after,
            size,
            kinds[at].0.to_default_spec(),
        ),
    ensures
        spread_only(kinds, start, after, size),
        served(kinds, from, at + 1, start, after, size),
{
    lemma_spread_chain(kinds, start, before, after, size);
    lemma_served_goes_on(kinds, from, at, start, before, after, size);
    lemma_spread_keeps_demands(kinds, start, before, size, kinds[at]);
    lemma_spread_same(kinds, after, size);
    assert forall|k: int|
        from <= k < at + 1 && 0 <= k < kinds.len() && demands(
            #[trigger] kinds[k],
            start,
            size,
        ) implies lay_once(kinds, kinds[k].0.to_default_spec(), start, after, size) by {
        if k == at {
            assert(lies_somewhere(after, size, kinds[at].0.to_default_spec()));
        }
    }
}

/// Placing after placing is placing.
pub proof fn lemma_spread_chain(
    kinds: Seq<(Content, OxAgContentOptions)>,
    m0: Vec<Vec<Tile>>,
    m1: Vec<Vec<Tile>>,
    m2: Vec<Vec<Tile>>,
    size: int,
)
    requires
        spread_only(kinds, m0, m1, size),
        spread_only(kinds, m1, m2, size),
    ensures
        spread_only(kinds, m0, m2, size),
{
    assert forall|r: int, c: int| inside(size, r, c) implies spread(
        kinds,
        m0[r][c],
        #[trigger] m2[r][c],
    ) by {
        let a = m1[r][c];
        assert(spread(kinds, m0[r][c], a));
        assert(spread(kinds, a, m2[r][c]));
    }
}

/// Placing the kind of one entry of `kinds` is placing contents of `kinds`.
pub proof fn lemma_stamps_spread(
    kinds: Seq<(Content, OxAgContentOptions)>,
    k: int,
    before: Vec<Vec<Tile>>,
    now: Vec<Vec<Tile>>,
    size: int,
)
    requires
        0 <= k < kinds.len(),
        placed_kind(kinds[k]),
        stamps_only(placing(kinds[k].0.to_default_spec()), before, now, size),
    ensures
        spread_only(kinds, before, now, size),
{
    assert forall|r: int, c: int| inside(size, r, c) implies spread(
        kinds,
        before[r][c],
        #[trigger] now[r][c],
    ) by {
        let b = before[r][c];
        let n = now[r][c];
        if n != b {
            assert(stamped(placing(kinds[k].0.to_default_spec()), b, n));
            lemma_kind_decides(kinds[k].0, kinds[k].0.to_default_spec(), b.tile_type);
            if b.tile_type.can_hold_spec(kinds[k].0) {
                assert(b.tile_type.can_hold_spec(kinds[k].0) && n.content.placed_as(
                    kinds[k].0.to_default_spec(),
                ));
            } else {
                assert(n == b);
            }
        }
    }
}

/// Placing contents leaves the terrain as it is, and leaves every content
/// on a terrain that can hold it.
pub proof fn lemma_spread_fits(
    kinds: Seq<(Content, OxAgContentOptions)>,
    before: Vec<Vec<Tile>>,
    now: Vec<Vec<Tile>>,
    size: int,
)
    requires
        spread_only(kinds, before, now, size),
    ensures
        same_terrain(before, now),
        content_fits(before) ==> content_fits(now),
{
    assert forall|r: int, c: int|
        0 <= r < before.len() && 0 <= c < before[r].len() implies (#[trigger] before[r][c]).tile_type
        == now[r][c].tile_type by {
        assert(inside(size, r, c));
        assert(spread(kinds, before[r][c], now[r][c]));
    }
    if content_fits(before) {
        assert forall|r: int, c: int|
            0 <= r < now.len() && 0 <= c < now[r].len() && !((
            #[trigger] now[r][c]).content is Empty) implies now[r][c].tile_type.can_hold_spec(
            now[r][c].content,
        ) by {
            assert(inside(size, r, c));
            let b = before[r][c];
            let n = now[r][c];
            assert(spread(kinds, b, n));
            if n != b {
                let k = choose|k: int|
                    0 <= k < kinds.len() && b.tile_type.can_hold_spec((#[trigger] kinds[k]).0)
                        && n.content.placed_as(kinds[k].0.to_default_spec());
                lemma_kind_decides(n.content, kinds[k].0, b.tile_type);
            }
        }
    }
}

/// The field that is handed over, if one is.
pub open spec fn handed(field: Option<&HeightMap>) -> Option<HeightMap> {
    match field {
        Some(f) => Some(*f),
        None => None,
    }
}

/// What a step does for the batch that waited for its field, between the
/// grids `before` and `now`: with a field of the side asked for, twice the
/// radius, the batch is placed around its center as `batch_placed` says;
/// with no field, or one of another side, nothing is placed.
pub open spec fn batch_done(
    kind: Content,
    radius: int,
    center: (int, int),
    field: Option<HeightMap>,
    before: Vec<Vec<Tile>>,
    now: Vec<Vec<Tile>>,
    size: int,
) -> bool {
    match field {
        Some(f) if f.size == 2 * radius => batch_placed(
            kind,
            f,
            radius,
            center.0,
            center.1,
            before,
            now,
            size,
        ),
        _ => now == before,
    }
}

/// What one step of the placing does between the grids `before` and
/// `after`, when `first` entries were taken up before it and `next` are
/// after it. Nothing happens but that contents of `kinds` are placed. Each
/// entry taken up in the step that demands its kind has had it placed. And
/// where a batch of `kind` and of radius `radius` waited for its field at
/// the center `pending`, the step first does for it what `batch_done` says,
/// and the rest of the step follows on the grid that this leaves.
pub open spec fn placed_on(
    kinds: Seq<(Content, OxAgContentOptions)>,
    first: int,
    next: int,
    pending: Option<(usize, usize)>,
    kind: Content,
    radius: int,
    field: Option<HeightMap>,
    before: Vec<Vec<Tile>>,
    after: Vec<Vec<Tile>>,
    size: int,
) -> bool {
    &&& spread_only(kinds, before, after, size)
    &&& served(kinds, first, next, before, after, size)
    &&& pending matches Some(center) ==> exists|between: Vec<Vec<Tile>>|
        #[trigger] batch_done(
            kind,
            radius,
            (center.0 as int, center.1 as int),
            field,
            before,
            between,
            size,
        ) && spread_only(kinds, between, after, size) && served(
            kinds,
            first,
            next,
            between,
            after,
            size,
        )
}

/// The state of the placing between two moves: the grid, how many entries
/// of the list are taken up, the kind and the radius of the batches in
/// hand and how many of them are still to come, the center of the batch
/// that waits for its field, and the start, once it is chosen.
pub struct Placing {
    pub map: Vec<Vec<Tile>>,
    pub next: usize,
    pub batch_kind: Content,
    pub batch_radius: usize,
    pub batches_left: usize,
    pub pending: Option<(usize, usize)>,
    pub spawn: Option<(usize, usize)>,
}

/// The state in which the placing begins on the grid `map`: no entry is
/// taken up, and no batch is in hand.
pub open spec fn placing_begun(map: Vec<Vec<Tile>>) -> Placing {
    Placing {
        map,
        next: 0,
        batch_kind: Content::Empty,
        batch_radius: 1,
        batches_left: 0,
        pending: None,
        spawn: None,
    }
}

/// The move from `a` to `b` takes up one of the batches that are still to
/// come. Where a cell can hold their kind, one such cell becomes the center
/// of the batch, which then waits for its field; where none can, the batch
/// is passed over.
pub open spec fn batch_taken(size: int, a: Placing, b: Placing) -> bool {
    &&& a.batches_left > 0
    &&& b.batches_left == a.batches_left - 1
    &&& b.map == a.map
    &&& b.next == a.next
    &&& b.batch_kind == a.batch_kind
    &&& b.batch_radius == a.batch_radius
    &&& b.spawn is None
    &&& if some_wanted(a.map, None, Wanted::Holder(a.batch_kind), 0, size) {
        &&& b.pending is Some
        &&& b.pending.unwrap().0 < size
        &&& b.pending.unwrap().1 < size
        &&& wanted_at(
            a.map,
            None,
            Wanted::Holder(a.batch_kind),
            b.pending.unwrap().0 as int,
            b.pending.unwrap().1 as int,
        )
    } else {
        b.pending is None
    }
}

/// The move from `a` to `b` takes up the next entry of `kinds`, no batch
/// being left to come. A kind that is absent, has no share or can lie
/// nowhere is passed over. A kind that spawns in batches gets batches of a
/// radius of at least 1, their number as `spawn_number_ok` allows within
/// `batch_limit_spec`, and is passed over where a batch would be wider
/// than a world may be. Any other kind is spread as `spread_randomly`
/// says.
pub open spec fn entry_taken(
    kinds: Seq<(Content, OxAgContentOptions)>,
    size: int,
    a: Placing,
    b: Placing,
) -> bool {
    let entry = kinds[a.next as int];
    let kind = entry.0.to_default_spec();
    let able = holders_spec(a.map, size, kind) as int;
    let radius = if entry.1.max_radius < 1 {
        1
    } else {
        entry.1.max_radius as int
    };
    &&& a.batches_left == 0
    &&& a.next < kinds.len()
    &&& b.next == a.next + 1
    &&& b.pending is None
    &&& b.spawn is None
    &&& if placed_kind(entry) && able > 0 && entry.1.in_batches && radius <= MAX_WORLD_SIZE / 2 {
        &&& b.map == a.map
        &&& b.batch_kind == kind
        &&& b.batch_radius == radius
        &&& spawn_number_ok(
            entry.1,
            batch_limit_spec(able, entry.1.percentage as int, radius),
            b.batches_left as int,
        )
    } else {
        &&& b.batch_kind == a.batch_kind
        &&& b.batch_radius == a.batch_radius
        &&& b.batches_left == 0
        &&& if placed_kind(entry) && able > 0 && !entry.1.in_batches {
            spread_randomly(kind, entry.1, able, a.map, b.map, size)
        } else {
            b.map == a.map
        }
    }
}

/// The move from `a` to `b` chooses the start, every entry being taken up
/// and no batch left to come: a cell of the grid, one that a robot can
/// stand on if there is one, and the first cell if there is none.
pub open spec fn start_chosen(
    kinds: Seq<(Content, OxAgContentOptions)>,
    size: int,
    a: Placing,
    b: Placing,
) -> bool {
    &&& a.batches_left == 0
    &&& a.next == kinds.len()
    &&& b == (Placing { spawn: b.spawn, ..a })
    &&& b.spawn is Some
    &&& b.spawn.unwrap().0 < size
    &&& b.spawn.unwrap().1 < size
    &&& if some_wanted(a.map, None, Wanted::Walkable, 0, size) {
        a.map[b.spawn.unwrap().0 as int][b.spawn.unwrap().1 as int].tile_type.walk_spec()
    } else {
        b.spawn == Some((0usize, 0usize))
    }
}

/// One move of the placing leads from `a` to `b`: no batch waits for its
/// field and no start is chosen in `a`, and a batch is taken up, or else
/// an entry, or else the start is chosen.
pub open spec fn placing_moves(
    kinds: Seq<(Content, OxAgContentOptions)>,
    size: int,
    a: Placing,
    b: Placing,
) -> bool {
    &&& a.pending is None
    &&& a.spawn is None
    &&& batch_taken(size, a, b) || entry_taken(kinds, size, a, b) || start_chosen(kinds, size, a, b)
}

/// The move numbered `i` leads from the state numbered `i` to the next.
pub open spec fn placing_link(
    kinds: Seq<(Content, OxAgContentOptions)>,
    size: int,
    states: Seq<Placing>,
    i: int,
) -> bool {
    placing_moves(kinds, size, states[i], states[i + 1])
}

/// One move of the placing after another was made: `states` holds the
/// state before the first move, between the moves and after the last.
pub open spec fn placing_ran(
    kinds: Seq<(Content, OxAgContentOptions)>,
    size: int,
    states: Seq<Placing>,
) -> bool {
    &&& states.len() >= 1
    &&& forall|i: int| 0 <= i < states.len() - 1 ==> #[trigger] placing_link(kinds, size, states, i)
}

/// The moves go on with one more move.
pub proof fn lemma_placing_goes_on(
    kinds: Seq<(Content, OxAgContentOptions)>,
    size: int,
    states: Seq<Placing>,
    b: Placing,
)
    requires
        placing_ran(kinds, size, states),
        placing_moves(kinds, size, states.last(), b),
    ensures
        placing_ran(kinds, size, states.push(b)),
{
    let longer = states.push(b);
    assert forall|i: int| 0 <= i < longer.len() - 1 implies #[trigger] placing_link(
        kinds,
        size,
        longer,
        i,
    ) by {
        if i < states.len() - 1 {
            assert(placing_link(kinds, size, states, i));
            assert(longer[i] == states[i] && longer[i + 1] == states[i + 1]);
        } else {
            assert(longer[i] == states.last() && longer[i + 1] == b);
        }
    }
}

/// One step of the placing leads from the state `a` to the state `b`, with
/// the field `field` handed over, by way of the grid `between` and the
/// states `states`. First the batch that waited for its field is seen to,
/// as `batch_done` says, which leaves the grid `between`. Then the moves
/// of the placing are made from there, as `placing_ran` says, at least
/// one, until a batch waits for its field or the start is chosen.
pub open spec fn stepped_by(
    kinds: Seq<(Content, OxAgContentOptions)>,
    size: int,
    field: Option<HeightMap>,
    a: Placing,
    b: Placing,
    between: Vec<Vec<Tile>>,
    states: Seq<Placing>,
) -> bool {
    &&& match a.pending {
        Some(center) => batch_done(
            a.batch_kind,
            a.batch_radius as int,
            (center.0 as int, center.1 as int),
            field,
            a.map,
            between,
            size,
        ),
        None => between == a.map,
    }
    &&& placing_ran(kinds, size, states)
    &&& states.len() >= 2
    &&& states[0] == (Placing { map: between, pending: None, ..a })
    &&& states.last() == b
    &&& b.pending is Some || b.spawn is Some
}

/// One step of the placing leads from the state `a` to the state `b`, with
/// the field `field` handed over: as `stepped_by` says, or to no other
/// state where the start was chosen before.
pub open spec fn stepped(
    kinds: Seq<(Content, OxAgContentOptions)>,
    size: int,
    field: Option<HeightMap>,
    a: Placing,
    b: Placing,
) -> bool {
    if a.spawn is Some {
        b == a
    } else {
        exists|between: Vec<Vec<Tile>>, states: Seq<Placing>| #[trigger]
            stepped_by(kinds, size, field, a, b, between, states)
    }
}

impl TileMat {
    /// The grid is square, not empty and no larger than a world may be.
    pub open spec fn wf(self) -> bool {
        &&& 0 < self.size <= MAX_WORLD_SIZE
        &&& square(self.map, self.size as int)
    }

    /// Some cell of the grid is one a robot can stand on.
    pub open spec fn has_walkable(self) -> bool {
        some_wanted(self.map, None, Wanted::Walkable, 0, self.size as int)
    }

    /// Draws cells until one is a cell a robot can stand on. Where the grid
    /// has none, the start is the first cell.
    pub fn choose_spawn(&self, rng: &mut StdRng) -> (at: (usize, usize))
        requires
            self.wf(),
        ensures
            at.0 < self.size,
            at.1 < self.size,
            self.has_walkable() ==> self.map[at.0 as int][at.1 as int].tile_type.walk_spec(),
            !self.has_walkable() ==> at == (0usize, 0usize),
    {
        match pick_cell(&self.map, None, Wanted::Walkable, 0, self.size, rng) {
            Some((row, col)) => {
                assert(wanted_at(self.map, None, Wanted::Walkable, row as int, col as int));
                (row, col)
            },
            None => (0, 0),
        }
    }

    /// Begins to place the contents of `content_options`, in the order of
    /// the list. Nothing is placed before the first step.
    pub fn spawn_contents(self, content_options: &Vec<(Content, OxAgContentOptions)>) -> (s:
        ContentSpawner)
        requires
            self.wf(),
            forall|k: int| 0 <= k < content_options.len() ==> (#[trigger] content_options[k]).1.valid(),
        ensures
            s.wf(),
            s.mat == self,
            s.state() == placing_begun(self.map),
            s.origin@ == self.map,
            s.content_options@ == content_options@,
            s.next == 0,
            s.batches_left == 0,
            s.pending is None,
            s.spawn is None,
    {
        let mut list: Vec<(Content, OxAgContentOptions)> = Vec::new();
        let mut k: usize = 0;
        while k < content_options.len()
            invariant
                k <= content_options.len(),
                list@ == content_options@.take(k as int),
            decreases content_options.len() - k,
        {
            list.push(content_options[k]);
            k += 1;
        }
        assert(content_options@.take(content_options.len() as int) == content_options@);
        proof {
            lemma_spread_same(content_options@, self.map, self.size as int);
        }
        ContentSpawner {
            origin: Ghost(self.map),
            mat: self,
            content_options: list,
            next: 0,
            batch_kind: Content::Empty,
            batch_radius: 1,
            batches_left: 0,
            pending: None,
            spawn: None,
        }
    }
}

impl ContentSpawner {
    /// The state of the placing.
    pub open spec fn state(self) -> Placing {
        Placing {
            map: self.mat.map,
            next: self.next,
            batch_kind: self.batch_kind,
            batch_radius: self.batch_radius,
            batches_left: self.batches_left,
            pending: self.pending,
            spawn: self.spawn,
        }
    }

    /// What holds of the state of the placing, apart from what was placed:
    /// the grid is well formed and the options are valid; a batch that
    /// waits for its field has its center on the grid and is of a kind of
    /// the list that is present, has a share and spawns in batches; and
    /// once the start is chosen, nothing is left to place, and the start
    /// lies on the grid, on a cell that a robot can stand on if there is
    /// one.
    pub open spec fn shape(self) -> bool {
        &&& self.mat.wf()
        &&& self.next <= self.content_options.len()
        &&& forall|k: int|
            0 <= k < self.content_options.len() ==> (#[trigger] self.content_options[k]).1.valid()
        &&& 1 <= self.batch_radius
        &&& 2 * self.batch_radius <= MAX_WORLD_SIZE
        &&& (self.pending matches Some((r, c)) ==> r < self.mat.size && c < self.mat.size)
        &&& (self.pending is Some || self.batches_left > 0 ==> exists|k: int|
            0 <= k < self.next && (#[trigger] self.content_options[k]).0.to_default_spec()
                == self.batch_kind && placed_kind(self.content_options[k])
                && self.content_options[k].1.in_batches)
        &&& (self.spawn matches Some((r, c)) ==> {
            &&& r < self.mat.size && c < self.mat.size
            &&& self.pending is None
            &&& self.batches_left == 0
            &&& self.next == self.content_options.len()
            &&& self.mat.has_walkable() ==> self.mat.map[r as int][c as int].tile_type.walk_spec()
            &&& !self.mat.has_walkable() ==> r == 0 && c == 0
        })
    }

    /// What holds of the placing between steps: its state has its shape;
    /// nothing has happened to the grid since the placing began but that
    /// contents of the list were placed; and each entry taken up so far
    /// that demands its kind has had it placed.
    pub open spec fn wf(self) -> bool {
        &&& self.shape()
        &&& spread_only(
            self.content_options@,
            self.origin@,
            self.mat.map,
            self.mat.size as int,
        )
        &&& served(
            self.content_options@,
            0,
            self.next as int,
            self.origin@,
            self.mat.map,
            self.mat.size as int,
        )
    }

    /// Goes on placing until a batch needs its field or all is done.
    fn advance(&mut self, rng: &mut StdRng) -> (step: SpawnStep)
        requires
            old(self).wf(),
            old(self).pending is None,
            old(self).spawn is None,
        ensures
            final(self).wf(),
            final(self).content_options == old(self).content_options,
            final(self).mat.size == old(self).mat.size,
            final(self).mat.seed == old(self).mat.seed,
            final(self).mat.with_info == old(self).mat.with_info,
            spread_only(
                old(self).content_options@,
                old(self).mat.map,
                final(self).mat.map,
                old(self).mat.size as int,
            ),
            step is Done <==> final(self).spawn is Some,
            step is NeedField <==> final(self).pending is Some,
            step matches SpawnStep::NeedField { seed, size } ==> size == 2 * final(self).batch_radius,
            final(self).next >= old(self).next,
            step is NeedField && final(self).next == old(self).next ==> final(self).batches_left
                < old(self).batches_left,
            final(self).origin == old(self).origin,
            served(
                old(self).content_options@,
                old(self).next as int,
                final(self).next as int,
                old(self).mat.map,
                final(self).mat.map,
                old(self).mat.size as int,
            ),
            exists|states: Seq<Placing>|
                #[trigger] placing_ran(old(self).content_options@, old(self).mat.size as int, states)
                    && states.len() >= 2 && states[0] == old(self).state() && states.last()
                    == final(self).state(),
    {
        let size: usize = self.mat.size;
        let ghost origin = self.mat.map;
        let ghost kinds = self.content_options@;
        let ghost first = self.next as int;
        let ghost mut states: Seq<Placing> = seq![self.state()];
        loop
            invariant
                placing_ran(kinds, size as int, states),
                states[0] == old(self).state(),
                states.last() == self.state(),
                self.shape(),
                old(self).wf(),
                self.origin == old(self).origin,
                first == old(self).next,
                served(kinds, first, self.next as int, origin, self.mat.map, size as int),
                self.pending is None,
                self.spawn is None,
                self.content_options == old(self).content_options,
                kinds == self.content_options@,
                size == self.mat.size == old(self).mat.size,
                self.mat.seed == old(self).mat.seed,
                self.mat.with_info == old(self).mat.with_info,
                spread_only(kinds, origin, self.mat.map, size as int),
                origin == old(self).mat.map,
                self.next >= old(self).next,
                self.next == old(self).next ==> self.batches_left <= old(self).batches_left,
            decreases self.content_options.len() - self.next, self.batches_left,
        {
            let ghost a = self.state();
            if self.batches_left > 0 {
                self.batches_left = self.batches_left - 1;
                let kind = self.batch_kind;
                match pick_cell(&self.mat.map, None, Wanted::Holder(kind), 0, size, rng) {
                    Some((row, col)) => {
                        let word: u32 = next_word(rng);
                        let mixed: u64 = self.mat.seed.wrapping_add(word as u64);
                        let low: u64 = mixed & 0xffff_ffff;
                        assert(low <= 0xffff_ffff) by (bit_vector)
                            requires
                                low == mixed & 0xffff_ffff,
                        ;
                        self.pending = Some((row, col));
                        proof {
                            assert(batch_taken(size as int, a, self.state()));
                            lemma_placing_goes_on(kinds, size as int, states, self.state());
                            states = states.push(self.state());
                            lemma_served_joined(
                                kinds,
                                first,
                                self.next as int,
                                self.origin@,
                                origin,
                                self.mat.map,
                                size as int,
                            );
                        }
                        return SpawnStep::NeedField {
                            seed: low as u32,
                            size: 2 * self.batch_radius,
                        };
                    },
                    None => {},
                }
                proof {
                    assert(batch_taken(size as int, a, self.state()));
                    lemma_placing_goes_on(kinds, size as int, states, self.state());
                    states = states.push(self.state());
                }
            } else if self.next < self.content_options.len() {
                let (content, options) = self.content_options[self.next];
                let ghost at = self.next as int;
                let ghost before = self.mat.map;
                self.next = self.next + 1;
                let kind = content.to_default();
                proof {
                    lemma_spread_same(kinds, before, size as int);
                }
                if options.is_present && options.percentage > 0 {
                    let able: usize = holders(&self.mat.map, size, kind);
                    assert(size * size <= MAX_WORLD_SIZE * MAX_WORLD_SIZE) by (nonlinear_arith)
                        requires
                            0 < size <= MAX_WORLD_SIZE,
                    ;
                    if able > 0 {
                        if options.in_batches {
                            let radius: usize = if options.max_radius < 1 {
                                1
                            } else {
                                options.max_radius
                            };
                            if radius <= MAX_WORLD_SIZE / 2 {
                                let limit: usize = batch_limit(able, options.percentage, radius);
                                self.batch_kind = kind;
                                self.batch_radius = radius;
                                self.batches_left = spawn_number(&options, limit, rng);
                                assert(self.content_options[at].0.to_default_spec() == kind
                                    && placed_kind(self.content_options[at])
                                    && self.content_options[at].1.in_batches);
                            }
                        } else {
                            self.mat.spawn_randomly(&kind, &options, able, rng);
                            proof {
                                lemma_stamps_spread(kinds, at, before, self.mat.map, size as int);
                            }
                        }
                    }
                }
                proof {
                    assert(spread_only(kinds, before, self.mat.map, size as int));
                    assert(demands(kinds[at], before, size as int) ==> lies_somewhere(
                        self.mat.map,
                        size as int,
                        kinds[at].0.to_default_spec(),
                    ));
                    lemma_entry_served(
                        kinds,
                        first,
                        at,
                        origin,
                        before,
                        self.mat.map,
                        size as int,
                    );
                    assert(entry_taken(kinds, size as int, a, self.state()));
                    lemma_placing_goes_on(kinds, size as int, states, self.state());
                    states = states.push(self.state());
                }
            } else {
                let at = self.mat.choose_spawn(rng);
                self.spawn = Some(at);
                proof {
                    assert(start_chosen(kinds, size as int, a, self.state()));
                    lemma_placing_goes_on(kinds, size as int, states, self.state());
                    states = states.push(self.state());
                    lemma_served_joined(
                        kinds,
                        first,
                        self.next as int,
                        self.origin@,
                        origin,
                        self.mat.map,
                        size as int,
                    );
                }
                return SpawnStep::Done;
            }
        }
    }

    /// Takes the placing one step on. A first step, and every step after a
    /// request for a field, hands over the field asked for; the batch in
    /// hand is placed by it, and nothing is placed for the batch where the
    /// field is missing or has another side than was asked for. The
    /// placing then goes on until the next batch needs a field, or until
    /// every kind is placed and the start is chosen.
    ///
    /// Nothing is placed of a kind that is absent or has no share, and a
    /// field is asked for only for a kind that is present, has a share and
    /// spawns in batches: where the list has none, the first step ends the
    /// placing. What the step does, move by move, is what `stepped` says.
    ///
    /// For each kind of the list, in order: a kind that is absent, has no
    /// share or can lie nowhere is passed over; a kind that spawns in
    /// batches gets batches of a radius of at least 1, their number drawn
    /// by `spawn_number` within `batch_limit`, and is passed over where a
    /// batch would be wider than a world may be; any other kind is spread
    /// by `spawn_randomly`. The seed of a batch's field is the seed of the
    /// grid plus a word drawn from `rng`, cut to 32 bits.
    pub fn step(&mut self, field: Option<&HeightMap>, rng: &mut StdRng) -> (step: SpawnStep)
        requires
            old(self).wf(),
            field matches Some(f) ==> f.wf(),
        ensures
            final(self).wf(),
            final(self).content_options == old(self).content_options,
            final(self).mat.size == old(self).mat.size,
            final(self).mat.seed == old(self).mat.seed,
            final(self).mat.with_info == old(self).mat.with_info,
            spread_only(
                old(self).content_options@,
                old(self).mat.map,
                final(self).mat.map,
                old(self).mat.size as int,
            ),
            step is Done <==> final(self).spawn is Some,
            step is NeedField <==> final(self).pending is Some,
            step matches SpawnStep::NeedField { seed, size } ==> size == 2 * final(self).batch_radius,
            old(self).spawn is Some ==> *final(self) == *old(self),
            final(self).next >= old(self).next,
            step is NeedField ==> final(self).next > old(self).next || (final(self).next == old(self).next && final(self).batches_left < old(self).batches_left),
            step is NeedField ==> exists|k: int|
                0 <= k < final(self).next && (
                #[trigger] final(self).content_options[k]).0.to_default_spec() == final(self).batch_kind && placed_kind(final(self).content_options[k]) && final(self).content_options[k].1.in_batches,
            final(self).origin == old(self).origin,
            served(
                old(self).content_options@,
                old(self).next as int,
                final(self).next as int,
                old(self).mat.map,
                final(self).mat.map,
                old(self).mat.size as int,
            ),
            stepped(
                old(self).content_options@,
                old(self).mat.size as int,
                handed(field),
                old(self).state(),
                final(self).state(),
            ),
            placed_on(
                old(self).content_options@,
                old(self).next as int,
                final(self).next as int,
                old(self).pending,
                old(self).batch_kind,
                old(self).batch_radius as int,
                handed(field),
                old(self).mat.map,
                final(self).mat.map,
                old(self).mat.size as int,
            ),
            old(self).pending matches Some(center) ==> exists|between: Vec<Vec<Tile>>|
                #[trigger] batch_done(
                    old(self).batch_kind,
                    old(self).batch_radius as int,
                    (center.0 as int, center.1 as int),
                    handed(field),
                    old(self).mat.map,
                    between,
                    old(self).mat.size as int,
                ) && spread_only(
                    old(self).content_options@,
                    between,
                    final(self).mat.map,
                    old(self).mat.size as int,
                ) && served(
                    old(self).content_options@,
                    old(self).next as int,
                    final(self).next as int,
                    between,
                    final(self).mat.map,
                    old(self).mat.size as int,
                ),
    {
        let size: usize = self.mat.size;
        let ghost origin = self.mat.map;
        let ghost kinds = self.content_options@;
        if self.spawn.is_some() {
            proof {
                lemma_spread_same(kinds, origin, size as int);
            }
            return SpawnStep::Done;
        }
        match self.pending {
            Some((row, col)) => {
                self.pending = None;
                match field {
                    Some(f) => {
                        if f.size == 2 * self.batch_radius {
                            let kind = self.batch_kind;
                            let radius = self.batch_radius;
                            self.mat.spawn_batch(&kind, radius, row, col, f, rng);
                            proof {
                                let k = choose|k: int|
                                    0 <= k < self.next && (
                                    #[trigger] self.content_options[k]).0.to_default_spec()
                                        == self.batch_kind && placed_kind(self.content_options[k])
                                        && self.content_options[k].1.in_batches;
                                lemma_to_value_keeps_kind(self.content_options[k].0, 0);
                                lemma_stamps_spread(kinds, k, origin, self.mat.map, size as int);
                                lemma_spread_chain(
                                    kinds,
                                    self.origin@,
                                    origin,
                                    self.mat.map,
                                    size as int,
                                );
                                lemma_served_goes_on(
                                    kinds,
                                    0,
                                    self.next as int,
                                    self.origin@,
                                    origin,
                                    self.mat.map,
                                    size as int,
                                );
                            }
                        }
                    },
                    None => {},
                }
            },
            None => {},
        }
        let ghost between = self.mat.map;
        proof {
            lemma_spread_same(kinds, origin, size as int);
            assert(spread_only(kinds, origin, between, size as int));
        }
        let ghost began = self.state();
        let step = self.advance(rng);
        proof {
            let states = choose|states: Seq<Placing>|
                #[trigger] placing_ran(kinds, size as int, states) && states.len() >= 2
                    && states[0] == began && states.last() == self.state();
            assert(began == (Placing { map: between, pending: None, ..old(self).state() }));
            assert(stepped_by(
                kinds,
                size as int,
                handed(field),
                old(self).state(),
                self.state(),
                between,
                states,
            ));
            lemma_spread_chain(kinds, origin, between, self.mat.map, size as int);
            lemma_served_from_before(
                kinds,
                old(self).next as int,
                self.next as int,
                origin,
                between,
                self.mat.map,
                size as int,
            );
            if old(self).pending is Some {
                let center = old(self).pending.unwrap();
                assert(batch_done(
                    old(self).batch_kind,
                    old(self).batch_radius as int,
                    (center.0 as int, center.1 as int),
                    handed(field),
                    origin,
                    between,
                    size as int,
                ));
            }
        }
        step
    }

    /// The grid with its contents, and the start.
    pub fn finish(self) -> (r: (TileMat, (usize, usize)))
        requires
            self.wf(),
            self.spawn is Some,
        ensures
            r.0 == self.mat,
            Some(r.1) == self.spawn,
            r.1.0 < r.0.size && r.1.1 < r.0.size,
            r.0.has_walkable() ==> r.0.map[r.1.0 as int][r.1.1 as int].tile_type.walk_spec(),
            spread_only(self.content_options@, self.origin@, r.0.map, r.0.size as int),
            served(
                self.content_options@,
                0,
                self.content_options.len() as int,
                self.origin@,
                r.0.map,
                r.0.size as int,
            ),
    {
        let at = self.spawn.unwrap();
        (self.mat, at)
    }
}

} // verus!
