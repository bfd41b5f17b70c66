//! Where things stand relative to the player: what has fallen too far
//! behind, how far up or down a kind of thing reaches, and where the
//! background grid lies.

use vstd::prelude::*;
use crate::geometry::{distance_squared, magnitude_of, Position};
use crate::units::WORLD_LIMIT;

verus! {

/// The height of one background tile: 1440 world units. It is also the
/// distance by which obstacles are kept ahead of the player.
pub const BACKGROUND_HEIGHT: i64 = 1_440_000;

/// The width of the background: 1500 world units.
pub const BACKGROUND_WIDTH: i64 = 1_500_000;

/// How far from the player a tile or an obstacle may be before it is
/// removed: four tile heights.
pub const DESPAWN_DISTANCE: i64 = 5_760_000;

/// Something that stands at a point, and of which a fresh one can be set
/// down anywhere.
pub trait Placed: Sized {
    /// Where it stands.
    spec fn place(&self) -> Position;

    /// A fresh one, as it is when set down at `position`.
    spec fn fresh(position: Position) -> Self;

    /// Where it stands.
    fn position(&self) -> (p: Position)
        ensures
            p == self.place(),
    ;

    /// Sets a fresh one down at `position`.
    fn spawn(position: Position) -> (item: Self)
        ensures
            item == Self::fresh(position),
    ;
}

/// Whether `a` is farther from `b` than the despawn distance.
pub open spec fn is_distant(a: Position, b: Position) -> bool {
    distance_squared(a, b) > DESPAWN_DISTANCE * DESPAWN_DISTANCE
}

/// Whether `a` is farther from `b` than the despawn distance.
pub fn is_far(a: Position, b: Position) -> (r: bool)
    ensures
        r == is_distant(a, b),
{
    let dx: u128 = magnitude_of(a.x as i128 - b.x as i128);
    let dy: u128 = magnitude_of(a.y as i128 - b.y as i128);
    let limit: u128 = DESPAWN_DISTANCE as u128;
    proof {
        let ix = a.x - b.x;
        let iy = a.y - b.y;
        assert(dx * dx == ix * ix && dy * dy == iy * iy) by (nonlinear_arith)
            requires
                dx == ix || dx == -ix,
                dy == iy || dy == -iy,
        ;
        assert(dx > limit ==> dx * dx > limit * limit) by (nonlinear_arith)
            requires
                dx >= 0,
                limit >= 0,
        ;
        assert(dy > limit ==> dy * dy > limit * limit) by (nonlinear_arith)
            requires
                dy >= 0,
                limit >= 0,
        ;
        assert(dx <= limit ==> dx * dx <= limit * limit) by (nonlinear_arith)
            requires
                dx >= 0,
                limit >= 0,
        ;
        assert(dy <= limit ==> dy * dy <= limit * limit) by (nonlinear_arith)
            requires
                dy >= 0,
                limit >= 0,
        ;
        assert(limit * limit == 33_177_600_000_000) by (nonlinear_arith)
            requires
                limit == 5_760_000,
        ;
        assert(dx * dx >= 0 && dy * dy >= 0) by (nonlinear_arith);
    }
    if dx > limit || dy > limit {
        true
    } else {
        dx * dx + dy * dy > limit * limit
    }
}

/// Those of `items` that are not too far from `center`, in their order.
pub open spec fn nearby<T: Placed>(items: Seq<T>, center: Position) -> Seq<T> {
    items.filter(|item: T| !is_distant(item.place(), center))
}

/// Removes what is too far from `center` and keeps the rest in its order.
pub fn retain_nearby<T: Placed + Copy>(items: &mut Vec<T>, center: Position)
    ensures
        final(items)@ == nearby(old(items)@, center),
{
    let ghost keep = |item: T| !is_distant(item.place(), center);
    let mut kept: Vec<T> = Vec::new();
    let mut i: usize = 0;
    proof {
        reveal(Seq::filter);
        assert(items@.take(0) =~= Seq::<T>::empty());
    }
    while i < items.len()
        invariant
            i <= items.len(),
            keep == |item: T| !is_distant(item.place(), center),
            kept@ == items@.take(i as int).filter(keep),
        decreases items.len() - i,
    {
        let item: T = items[i];
        let far: bool = is_far(item.position(), center);
        proof {
            reveal(Seq::filter);
            assert(items@.take(i + 1).drop_last() =~= items@.take(i as int));
            assert(items@.take(i + 1).last() == item);
        }
        if !far {
            kept.push(item);
        }
        i += 1;
    }
    proof {
        assert(items@.take(i as int) =~= items@);
    }
    *items = kept;
}

/// The greatest height at which one of `items` stands; `items` is not
/// empty.
pub open spec fn highest<T: Placed>(items: Seq<T>) -> int
    decreases items.len(),
{
    if items.len() <= 1 {
        if items.len() == 1 {
            items[0].place().y as int
        } else {
            0
        }
    } else {
        let rest = highest(items.drop_last());
        let last = items.last().place().y as int;
        if last > rest {
            last
        } else {
            rest
        }
    }
}

/// The least height at which one of `items` stands; `items` is not empty.
pub open spec fn lowest<T: Placed>(items: Seq<T>) -> int
    decreases items.len(),
{
    if items.len() <= 1 {
        if items.len() == 1 {
            items[0].place().y as int
        } else {
            0
        }
    } else {
        let rest = lowest(items.drop_last());
        let last = items.last().place().y as int;
        if last < rest {
            last
        } else {
            rest
        }
    }
}

/// `highest` is the height of one of the items, and none stands higher.
pub proof fn lemma_highest<T: Placed>(items: Seq<T>)
    requires
        items.len() > 0,
    ensures
        forall|i: int| 0 <= i < items.len() ==> (#[trigger] items[i]).place().y <= highest(items),
        exists|i: int| 0 <= i < items.len() && (#[trigger] items[i]).place().y == highest(items),
    decreases items.len(),
{
    if items.len() > 1 {
        let rest = items.drop_last();
        lemma_highest(rest);
        assert forall|i: int| 0 <= i < items.len() implies (#[trigger] items[i]).place().y
            <= highest(items) by {
            if i < rest.len() {
                assert(rest[i] == items[i]);
            }
        }
        let w = choose|i: int| 0 <= i < rest.len() && (#[trigger] rest[i]).place().y == highest(rest);
        assert(rest[w] == items[w]);
        if items.last().place().y > highest(rest) {
            assert(items[items.len() - 1].place().y == highest(items));
        } else {
            assert(items[w].place().y == highest(items));
        }
    } else {
        assert(items[0].place().y == highest(items));
    }
}

/// `lowest` is the height of one of the items, and none stands lower.
pub proof fn lemma_lowest<T: Placed>(items: Seq<T>)
    requires
        items.len() > 0,
    ensures
        forall|i: int| 0 <= i < items.len() ==> (#[trigger] items[i]).place().y >= lowest(items),
        exists|i: int| 0 <= i < items.len() && (#[trigger] items[i]).place().y == lowest(items),
    decreases items.len(),
{
    if items.len() > 1 {
        let rest = items.drop_last();
        lemma_lowest(rest);
        assert forall|i: int| 0 <= i < items.len() implies (#[trigger] items[i]).place().y
            >= lowest(items) by {
            if i < rest.len() {
                assert(rest[i] == items[i]);
            }
        }
        let w = choose|i: int| 0 <= i < rest.len() && (#[trigger] rest[i]).place().y == lowest(rest);
        assert(rest[w] == items[w]);
        if items.last().place().y < lowest(rest) {
            assert(items[items.len() - 1].place().y == lowest(items));
        } else {
            assert(items[w].place().y == lowest(items));
        }
    } else {
        assert(items[0].place().y == lowest(items));
    }
}

/// The greatest height at which one of `items` stands, if there is any.
pub fn highest_of<T: Placed>(items: &Vec<T>) -> (r: Option<i64>)
    ensures
        items@.len() == 0 ==> r is None,
        items@.len() > 0 ==> (r matches Some(h) && h == highest(items@)),
{
    if items.len() == 0 {
        return None;
    }
    let mut best: i64 = items[0].position().y;
    let mut i: usize = 1;
    proof {
        assert(items@.take(1) =~= seq![items@[0]]);
    }
    while i < items.len()
        invariant
            1 <= i <= items.len(),
            best == highest(items@.take(i as int)),
        decreases items.len() - i,
    {
        let y: i64 = items[i].position().y;
        proof {
            assert(items@.take(i + 1).drop_last() =~= items@.take(i as int));
            assert(items@.take(i + 1).last() == items@[i as int]);
        }
        if y > best {
            best = y;
        }
        i += 1;
    }
    proof {
        assert(items@.take(i as int) =~= items@);
    }
    Some(best)
}

/// The least height at which one of `items` stands, if there is any.
pub fn lowest_of<T: Placed>(items: &Vec<T>) -> (r: Option<i64>)
    ensures
        items@.len() == 0 ==> r is None,
        items@.len() > 0 ==> (r matches Some(l) && l == lowest(items@)),
{
    if items.len() == 0 {
        return None;
    }
    let mut best: i64 = items[0].position().y;
    let mut i: usize = 1;
    proof {
        assert(items@.take(1) =~= seq![items@[0]]);
    }
    while i < items.len()
        invariant
            1 <= i <= items.len(),
            best == lowest(items@.take(i as int)),
        decreases items.len() - i,
    {
        let y: i64 = items[i].position().y;
        proof {
            assert(items@.take(i + 1).drop_last() =~= items@.take(i as int));
            assert(items@.take(i + 1).last() == items@[i as int]);
        }
        if y < best {
            best = y;
        }
        i += 1;
    }
    proof {
        assert(items@.take(i as int) =~= items@);
    }
    Some(best)
}

/// The remainder of `a` by `m` that has the sign of `a`.
pub open spec fn truncated_rem(a: int, m: int) -> int {
    if a >= 0 {
        a % m
    } else {
        -((-a) % m)
    }
}

/// The line of the background grid at `y` or next to it towards zero.
pub open spec fn grid_line(y: int) -> int {
    y - truncated_rem(y, BACKGROUND_HEIGHT as int)
}

/// The line of the background grid at `y` or next to it towards zero.
pub fn grid_line_of(y: i64) -> (line: i64)
    ensures
        line == grid_line(y as int),
        y >= 0 ==> y - BACKGROUND_HEIGHT < line <= y,
        y <= 0 ==> y <= line < y + BACKGROUND_HEIGHT,
{
    if y >= 0 {
        y - y % BACKGROUND_HEIGHT
    } else {
        let m: u64 = ((-(y as i128)) as u64) % (BACKGROUND_HEIGHT as u64);
        y + m as i64
    }
}

/// How far up `items` reach for a player at height `y`: to the highest of
/// them, and with none of them to one tile below the grid line of `y`.
pub open spec fn top_edge<T: Placed>(items: Seq<T>, y: int) -> int {
    if items.len() == 0 {
        grid_line(y) - BACKGROUND_HEIGHT
    } else {
        highest(items)
    }
}

/// How far down `items` reach for a player at height `y`: to the lowest
/// of them, and with none of them to the grid line of `y`.
pub open spec fn bottom_edge<T: Placed>(items: Seq<T>, y: int) -> int {
    if items.len() == 0 {
        grid_line(y)
    } else {
        lowest(items)
    }
}

/// Whether `items` end less than one tile height above a player at height
/// `y`, so that one more is due above them.
pub open spec fn top_needed<T: Placed>(items: Seq<T>, y: int) -> bool {
    top_edge(items, y) - y < BACKGROUND_HEIGHT
}

/// Whether `items` end less than one tile height below a player at height
/// `y`, so that one more is due below them.
pub open spec fn bottom_needed<T: Placed>(items: Seq<T>, y: int) -> bool {
    y - bottom_edge(items, y) < BACKGROUND_HEIGHT
}

/// The top edge of `items`, where one more is due above them.
pub fn needed_top<T: Placed>(items: &Vec<T>, y: i64) -> (edge: Option<i64>)
    requires
        -WORLD_LIMIT <= y <= WORLD_LIMIT,
    ensures
        top_needed(items@, y as int) ==> (edge matches Some(e) && e == top_edge(items@, y as int)),
        !top_needed(items@, y as int) ==> edge is None,
        edge matches Some(e) ==> e - y < BACKGROUND_HEIGHT,
{
    let edge: i64 = match highest_of(items) {
        Some(h) => h,
        None => grid_line_of(y) - BACKGROUND_HEIGHT,
    };
    if (edge as i128) - (y as i128) < BACKGROUND_HEIGHT as i128 {
        Some(edge)
    } else {
        None
    }
}

/// The bottom edge of `items`, where one more is due below them.
pub fn needed_bottom<T: Placed>(items: &Vec<T>, y: i64) -> (edge: Option<i64>)
    requires
        -WORLD_LIMIT <= y <= WORLD_LIMIT,
    ensures
        bottom_needed(items@, y as int) ==> (edge matches Some(e) && e == bottom_edge(items@, y as int)),
        !bottom_needed(items@, y as int) ==> edge is None,
        edge matches Some(e) ==> y - e < BACKGROUND_HEIGHT,
{
    let edge: i64 = match lowest_of(items) {
        Some(l) => l,
        None => grid_line_of(y),
    };
    if (y as i128) - (edge as i128) < BACKGROUND_HEIGHT as i128 {
        Some(edge)
    } else {
        None
    }
}

} // verus!
