//! What the background system keeps true from tick to tick: the tiles form
//! one unbroken column, the player stands on it or within a tile height of
//! it, and never more than a handful of tiles are laid.

use vstd::prelude::*;
use crate::components::{Background, Car, Player};
use crate::geometry::{lemma_step_bounded, Position};
use crate::placement::{
    bottom_needed, grid_line, highest, is_distant, lemma_highest, lemma_lowest, lowest, nearby,
    top_needed, BACKGROUND_HEIGHT, DESPAWN_DISTANCE,
};
use crate::resources::{Input, Paused};
use crate::systems::background::{tile_above, tile_below, tiles_after, with_bottom, with_top};
use crate::systems::player::{blocking_car, is_moved, steered};
use crate::units::{AREA_WIDTH, SPEED_PER_LENGTH};

verus! {

/// The most tiles that are ever laid at once.
pub const MAX_TILES: usize = 6;

/// Whether `tiles` form one column from the bottom up: all in column zero,
/// each one tile height above the one before.
pub open spec fn is_column(tiles: Seq<Background>) -> bool {
    forall|i: int|
        0 <= i < tiles.len() ==> {
            &&& (#[trigger] tiles[i]).position.x == 0
            &&& tiles[i].position.y == tiles[0].position.y + i * BACKGROUND_HEIGHT
        }
}

/// Whether `tiles` form a column of no more than `MAX_TILES` tiles that
/// reaches from no more than a tile height above `player` to no more than a
/// tile height below.
pub open spec fn is_tiled(tiles: Seq<Background>, player: Position) -> bool {
    &&& 0 < tiles.len() <= MAX_TILES
    &&& is_column(tiles)
    &&& tiles.first().position.y - BACKGROUND_HEIGHT <= player.y
    &&& player.y <= tiles.last().position.y + BACKGROUND_HEIGHT
}

/// Whether none of `tiles` is farther from `player` than four tile
/// heights.
pub open spec fn none_distant(tiles: Seq<Background>, player: Position) -> bool {
    forall|i: int| 0 <= i < tiles.len() ==> !is_distant((#[trigger] tiles[i]).position, player)
}

/// Whether `tiles` reach a full tile height beyond `player` both ways: the
/// first lies at least that far below and the last at least that far above.
pub open spec fn is_covered(tiles: Seq<Background>, player: Position) -> bool {
    &&& tiles.len() > 0
    &&& tiles.first().position.y + BACKGROUND_HEIGHT <= player.y
    &&& player.y + BACKGROUND_HEIGHT <= tiles.last().position.y
}

/// How far `tiles` reach above `player`: from the player up to the last
/// tile; `tiles` is not empty.
pub open spec fn reach_above(tiles: Seq<Background>, player: Position) -> int {
    tiles.last().position.y - player.y
}

/// How far `tiles` reach below `player`: from the first tile up to the
/// player; `tiles` is not empty.
pub open spec fn reach_below(tiles: Seq<Background>, player: Position) -> int {
    player.y - tiles.first().position.y
}

/// What is laid on a walk: the tiles after one tick of the background for
/// each place of the walk in turn, beginning with no tile.
pub open spec fn tiles_along(walk: Seq<Player>) -> Seq<Background>
    decreases walk.len(),
{
    if walk.len() == 0 {
        Seq::empty()
    } else {
        tiles_after(Paused::Unpaused, Some(walk.last()), tiles_along(walk.drop_last()))
    }
}

/// Whether `walk` is a walk of the game: every place lies in the world and
/// within the play area, and from each to the next it is no more than a
/// tile height up or down.
pub open spec fn is_walk(walk: Seq<Player>) -> bool {
    &&& forall|i: int|
        0 <= i < walk.len() ==> {
            &&& (#[trigger] walk[i]).position.in_world()
            &&& -AREA_WIDTH <= walk[i].position.x <= AREA_WIDTH
        }
    &&& forall|i: int|
        0 < i < walk.len() ==> -BACKGROUND_HEIGHT <= (#[trigger] walk[i]).position.y - walk[i
            - 1].position.y <= BACKGROUND_HEIGHT
}

/// A column reaches from its first tile up to its last.
pub proof fn lemma_column_ends(tiles: Seq<Background>)
    requires
        is_column(tiles),
        tiles.len() > 0,
    ensures
        lowest(tiles) == tiles.first().position.y,
        highest(tiles) == tiles.last().position.y,
{
    lemma_highest(tiles);
    lemma_lowest(tiles);
    let n = tiles.len() as int;
    assert(tiles[n - 1].position.y <= highest(tiles));
    assert(tiles[0].position.y >= lowest(tiles));
}

/// On tiled ground some tile is within a tile height of the player.
pub proof fn lemma_tile_within_reach(tiles: Seq<Background>, player: Position)
    requires
        is_tiled(tiles, player),
    ensures
        exists|i: int|
            0 <= i < tiles.len() && -BACKGROUND_HEIGHT <= player.y - (#[trigger] tiles[i]).position.y
                <= BACKGROUND_HEIGHT,
{
    let n = tiles.len() as int;
    let base = tiles[0].position.y as int;
    if player.y <= base {
        assert(-BACKGROUND_HEIGHT <= player.y - tiles[0].position.y <= BACKGROUND_HEIGHT);
    } else if player.y >= tiles[n - 1].position.y {
        assert(-BACKGROUND_HEIGHT <= player.y - tiles[n - 1].position.y <= BACKGROUND_HEIGHT);
    } else {
        let i = (player.y - base) / (BACKGROUND_HEIGHT as int);
        assert(0 <= i < n);
        assert(-BACKGROUND_HEIGHT <= player.y - tiles[i].position.y <= BACKGROUND_HEIGHT);
    }
}

/// Of three points of one vertical line, the middle one is near wherever
/// the outer two are.
proof fn lemma_between_is_near(low: Position, mid: Position, high: Position, center: Position)
    requires
        low.x == mid.x,
        mid.x == high.x,
        low.y <= mid.y <= high.y,
        !is_distant(low, center),
        !is_distant(high, center),
    ensures
        !is_distant(mid, center),
{
    let across = mid.x - center.x;
    let a = low.y - center.y;
    let b = mid.y - center.y;
    let c = high.y - center.y;
    assert(b * b <= a * a || b * b <= c * c) by (nonlinear_arith)
        requires
            a <= b <= c,
    ;
    assert(across * across >= 0 && a * a >= 0 && b * b >= 0 && c * c >= 0) by (nonlinear_arith);
}

/// The tiles of a column that are near a point are a stretch of it: those
/// from `range.0` up to, but not including, `range.1`.
pub proof fn lemma_nearby_column(tiles: Seq<Background>, center: Position) -> (range: (int, int))
    requires
        is_column(tiles),
    ensures
        0 <= range.0 <= range.1 <= tiles.len(),
        nearby(tiles, center) == tiles.subrange(range.0, range.1),
        forall|i: int| range.0 <= i < range.1 ==> !is_distant((#[trigger] tiles[i]).position, center),
        forall|i: int|
            0 <= i < tiles.len() && !(range.0 <= i < range.1) ==> is_distant(
                (#[trigger] tiles[i]).position,
                center,
            ),
    decreases tiles.len(),
{
    reveal(Seq::filter);
    let n = tiles.len() as int;
    if n == 0 {
        assert(nearby(tiles, center) =~= tiles.subrange(0, 0));
        (0, 0)
    } else {
        let rest = tiles.drop_last();
        let last = tiles.last();
        assert forall|i: int| 0 <= i < rest.len() implies {
            &&& (#[trigger] rest[i]).position.x == 0
            &&& rest[i].position.y == rest[0].position.y + i * BACKGROUND_HEIGHT
        } by {
            assert(rest[i] == tiles[i]);
            assert(rest[0] == tiles[0]);
        }
        let (a, b) = lemma_nearby_column(rest, center);
        assert forall|i: int| 0 <= i < rest.len() implies rest[i] == tiles[i] by {}
        if !is_distant(last.position, center) {
            assert(nearby(tiles, center) == nearby(rest, center).push(last));
            if a == b {
                assert(nearby(tiles, center) =~= tiles.subrange(n - 1, n));
                assert forall|i: int| 0 <= i < n && !(n - 1 <= i < n) implies is_distant(
                    (#[trigger] tiles[i]).position,
                    center,
                ) by {
                    assert(rest[i] == tiles[i]);
                }
                (n - 1, n)
            } else {
                if b < n - 1 {
                    assert(rest[a] == tiles[a]);
                    assert(rest[b] == tiles[b]);
                    lemma_between_is_near(
                        tiles[a].position,
                        tiles[b].position,
                        last.position,
                        center,
                    );
                    assert(false);
                }
                assert(nearby(tiles, center) =~= tiles.subrange(a, n));
                assert forall|i: int| a <= i < n implies !is_distant(
                    (#[trigger] tiles[i]).position,
                    center,
                ) by {
                    if i < n - 1 {
                        assert(rest[i] == tiles[i]);
                    }
                }
                assert forall|i: int| 0 <= i < n && !(a <= i < n) implies is_distant(
                    (#[trigger] tiles[i]).position,
                    center,
                ) by {
                    assert(rest[i] == tiles[i]);
                }
                (a, n)
            }
        } else {
            assert(nearby(tiles, center) == nearby(rest, center));
            assert(nearby(tiles, center) =~= tiles.subrange(a, b));
            assert forall|i: int| a <= i < b implies !is_distant(
                (#[trigger] tiles[i]).position,
                center,
            ) by {
                assert(rest[i] == tiles[i]);
            }
            assert forall|i: int| 0 <= i < n && !(a <= i < b) implies is_distant(
                (#[trigger] tiles[i]).position,
                center,
            ) by {
                if i < n - 1 {
                    assert(rest[i] == tiles[i]);
                }
            }
            (a, b)
        }
    }
}

/// A stretch of a column is a column.
proof fn lemma_stretch_is_column(tiles: Seq<Background>, from: int, to: int)
    requires
        is_column(tiles),
        0 <= from <= to <= tiles.len(),
    ensures
        is_column(tiles.subrange(from, to)),
{
    let stretch = tiles.subrange(from, to);
    assert forall|i: int| 0 <= i < stretch.len() implies {
        &&& (#[trigger] stretch[i]).position.x == 0
        &&& stretch[i].position.y == stretch[0].position.y + i * BACKGROUND_HEIGHT
    } by {
        assert(stretch[i] == tiles[from + i]);
        assert(stretch[0] == tiles[from]);
    }
}

/// A column with the next tile laid on top is a column.
proof fn lemma_topped_is_column(tiles: Seq<Background>, tile: Background)
    requires
        is_column(tiles),
        tiles.len() > 0,
        tile.position.x == 0,
        tile.position.y == tiles.last().position.y + BACKGROUND_HEIGHT,
    ensures
        is_column(tiles.push(tile)),
{
    let topped = tiles.push(tile);
    let n = tiles.len() as int;
    assert(tiles[n - 1].position.y == tiles[0].position.y + (n - 1) * BACKGROUND_HEIGHT);
    assert forall|i: int| 0 <= i < topped.len() implies {
        &&& (#[trigger] topped[i]).position.x == 0
        &&& topped[i].position.y == topped[0].position.y + i * BACKGROUND_HEIGHT
    } by {
        if i < n {
            assert(topped[i] == tiles[i]);
        }
        assert(topped[0] == tiles[0]);
    }
}

/// A column with the next tile laid underneath is a column.
proof fn lemma_footed_is_column(tiles: Seq<Background>, tile: Background)
    requires
        is_column(tiles),
        tiles.len() > 0,
        tile.position.x == 0,
        tile.position.y == tiles.first().position.y - BACKGROUND_HEIGHT,
    ensures
        is_column(tiles.insert(0, tile)),
{
    let footed = tiles.insert(0, tile);
    assert forall|i: int| 0 <= i < footed.len() implies {
        &&& (#[trigger] footed[i]).position.x == 0
        &&& footed[i].position.y == footed[0].position.y + i * BACKGROUND_HEIGHT
    } by {
        if i > 0 {
            assert(footed[i] == tiles[i - 1]);
        }
        assert(footed[0] == tiles.insert(0, tile)[0]);
    }
}

/// In column zero, whatever is within three tile heights of the height of
/// a point of the play area is near that point.
proof fn lemma_near_within(tile: Position, center: Position)
    requires
        tile.x == 0,
        -AREA_WIDTH <= center.x <= AREA_WIDTH,
        -3 * BACKGROUND_HEIGHT <= tile.y - center.y <= 3 * BACKGROUND_HEIGHT,
    ensures
        !is_distant(tile, center),
{
    let across = tile.x - center.x;
    let up = tile.y - center.y;
    assert(0 <= across * across <= 577_600_000_000) by (nonlinear_arith)
        requires
            -760_000 <= across <= 760_000,
    ;
    assert(0 <= up * up <= 18_662_400_000_000) by (nonlinear_arith)
        requires
            -4_320_000 <= up <= 4_320_000,
    ;
    assert(DESPAWN_DISTANCE * DESPAWN_DISTANCE == 33_177_600_000_000) by (nonlinear_arith);
}

/// Whatever is near a point is within four tile heights of its height.
proof fn lemma_near_bound(tile: Position, center: Position)
    requires
        !is_distant(tile, center),
    ensures
        -DESPAWN_DISTANCE <= tile.y - center.y <= DESPAWN_DISTANCE,
{
    let across = tile.x - center.x;
    let up = tile.y - center.y;
    assert(across * across >= 0) by (nonlinear_arith);
    assert(DESPAWN_DISTANCE * DESPAWN_DISTANCE == 33_177_600_000_000) by (nonlinear_arith);
    assert(-5_760_000 <= up <= 5_760_000) by (nonlinear_arith)
        requires
            up * up <= 33_177_600_000_000,
    ;
}

/// The first tick lays tiled ground: with no tile laid and a player
/// anywhere in the world, one tick of the background leaves the ground
/// tiled around the player.
pub proof fn lemma_tiling_begins(player: Player)
    requires
        player.position.in_world(),
    ensures
        is_tiled(
            tiles_after(Paused::Unpaused, Some(player), Seq::<Background>::empty()),
            player.position,
        ),
        -AREA_WIDTH <= player.position.x <= AREA_WIDTH ==> none_distant(
            tiles_after(Paused::Unpaused, Some(player), Seq::<Background>::empty()),
            player.position,
        ),
{
    reveal(Seq::filter);
    let y = player.position.y as int;
    let none = Seq::<Background>::empty();
    let kept = nearby(none, player.position);
    assert(kept =~= none);
    let line = grid_line(y);
    assert(y >= 0 ==> y - BACKGROUND_HEIGHT < line <= y);
    assert(y <= 0 ==> y <= line < y + BACKGROUND_HEIGHT);
    assert(top_needed(kept, y));
    let first = tile_above(kept, y);
    let topped = with_top(kept, y);
    assert(topped =~= seq![first]);
    assert(first.position.y == line);
    assert(lowest(topped) == line);
    assert(bottom_needed(topped, y));
    let second = tile_below(topped, y);
    let laid = with_bottom(topped, y);
    assert(laid =~= seq![second, first]);
    assert(second.position.y == line - BACKGROUND_HEIGHT);
    assert(laid[0] == second && laid[1] == first);
    if -AREA_WIDTH <= player.position.x <= AREA_WIDTH {
        lemma_near_within(first.position, player.position);
        lemma_near_within(second.position, player.position);
    }
}

/// Tiled ground stays tiled: if the ground is tiled around where the player
/// stood, and the player has since moved up or down by no more than a tile
/// height and stands within the play area, then one tick of the background
/// leaves the ground tiled around where the player stands now, with no
/// tile farther off than four tile heights. Ground that reached a full
/// tile height beyond the player both ways still does; and ground that
/// fell short of that, above or below, has grown by a tile height there.
pub proof fn lemma_tiling_lasts(tiles: Seq<Background>, before: Position, player: Player)
    requires
        is_tiled(tiles, before),
        player.position.in_world(),
        -AREA_WIDTH <= player.position.x <= AREA_WIDTH,
        -BACKGROUND_HEIGHT <= player.position.y - before.y <= BACKGROUND_HEIGHT,
    ensures
        is_tiled(tiles_after(Paused::Unpaused, Some(player), tiles), player.position),
        none_distant(tiles_after(Paused::Unpaused, Some(player), tiles), player.position),
        is_covered(tiles, before) ==> is_covered(
            tiles_after(Paused::Unpaused, Some(player), tiles),
            player.position,
        ),
        reach_above(tiles_after(Paused::Unpaused, Some(player), tiles), player.position)
            >= vstd::math::min(
            BACKGROUND_HEIGHT as int,
            reach_above(tiles, player.position) + BACKGROUND_HEIGHT,
        ),
        reach_below(tiles_after(Paused::Unpaused, Some(player), tiles), player.position)
            >= vstd::math::min(
            BACKGROUND_HEIGHT as int,
            reach_below(tiles, player.position) + BACKGROUND_HEIGHT,
        ),
{
    let center = player.position;
    let y = center.y as int;
    let n = tiles.len() as int;
    let base = tiles[0].position.y as int;
    let height = BACKGROUND_HEIGHT as int;
    assert(tiles[n - 1].position.y == base + (n - 1) * height);
    let (a, b) = lemma_nearby_column(tiles, center);
    let kept = nearby(tiles, center);
    // Some tile is within three tile heights of the player, so it is kept.
    let close = if y <= base {
        0
    } else if y >= base + (n - 1) * height {
        n - 1
    } else {
        (y - base) / height
    };
    assert(0 <= close < n);
    assert(tiles[close].position.y == base + close * height);
    lemma_near_within(tiles[close].position, center);
    assert(a <= close < b);
    lemma_stretch_is_column(tiles, a, b);
    assert(kept.len() == b - a);
    assert(kept[0] == tiles[a]);
    assert(kept[b - a - 1] == tiles[b - 1]);
    lemma_column_ends(kept);
    lemma_near_bound(tiles[a].position, center);
    lemma_near_bound(tiles[b - 1].position, center);
    let low = tiles[a].position.y as int;
    let high = tiles[b - 1].position.y as int;
    assert(high == low + (b - a - 1) * height);
    // What was taken up above the kept tiles lay beyond the player's reach.
    if b < n {
        assert(tiles[b].position.y == high + height);
        if tiles[b].position.y - y <= 3 * height {
            lemma_near_within(tiles[b].position, center);
        }
        assert(high > y + 2 * height);
    } else {
        assert(high >= y - 2 * height);
    }
    if a > 0 {
        assert(tiles[a - 1].position.y == low - height);
        if y - tiles[a - 1].position.y <= 3 * height {
            lemma_near_within(tiles[a - 1].position, center);
        }
        assert(low < y - 2 * height);
    } else {
        assert(low <= y + 2 * height);
    }
    let topped = with_top(kept, y);
    if top_needed(kept, y) {
        lemma_topped_is_column(kept, tile_above(kept, y));
        assert(topped.last() == tile_above(kept, y));
        assert(topped[0] == kept[0]);
    }
    assert(is_column(topped));
    assert(topped.len() > 0);
    assert(topped.first().position.y == low);
    let top = topped.last().position.y as int;
    assert(top == low + (topped.len() - 1) * height);
    lemma_column_ends(topped);
    let laid = with_bottom(topped, y);
    if bottom_needed(topped, y) {
        lemma_footed_is_column(topped, tile_below(topped, y));
        assert(laid[0] == tile_below(topped, y));
        assert(laid[laid.len() - 1] == topped[topped.len() - 1]);
    }
    assert(is_column(laid));
    let bottom = laid.first().position.y as int;
    assert(laid.last().position.y == top);
    assert(top == bottom + (laid.len() - 1) * height);
    assert(laid.len() <= MAX_TILES);
    // Both ends are near the player, and so is all that lies between.
    if top_needed(kept, y) {
        lemma_near_within(laid.last().position, center);
    } else {
        assert(laid.last() == tiles[b - 1]);
    }
    if bottom_needed(topped, y) {
        lemma_near_within(laid.first().position, center);
    } else {
        assert(laid.first() == tiles[a]);
    }
    assert forall|i: int| 0 <= i < laid.len() implies !is_distant(
        (#[trigger] laid[i]).position,
        center,
    ) by {
        lemma_between_is_near(laid.first().position, laid[i].position, laid.last().position, center);
    }
}

/// The ground is tiled all along a walk: after each tick of a walk that
/// begins with no tile laid, the tiles form one column of no more than
/// `MAX_TILES`, the player stands within a tile height of it, and no tile
/// is farther from the player than four tile heights.
pub proof fn lemma_tiling_along_walk(walk: Seq<Player>)
    requires
        walk.len() > 0,
        is_walk(walk),
    ensures
        is_tiled(tiles_along(walk), walk.last().position),
        none_distant(tiles_along(walk), walk.last().position),
        exists|i: int|
            0 <= i < tiles_along(walk).len() && -BACKGROUND_HEIGHT <= walk.last().position.y - (
            #[trigger] tiles_along(walk)[i]).position.y <= BACKGROUND_HEIGHT,
    decreases walk.len(),
{
    let before = walk.drop_last();
    let last = walk.len() - 1;
    assert(walk.last() == walk[last]);
    assert(tiles_along(walk) == tiles_after(
        Paused::Unpaused,
        Some(walk.last()),
        tiles_along(before),
    ));
    if before.len() == 0 {
        assert(tiles_along(before) == Seq::<Background>::empty());
        lemma_tiling_begins(walk.last());
    } else {
        lemma_walk_so_far(walk);
        lemma_tiling_along_walk(before);
        assert(before.last() == walk[last - 1]);
        lemma_tiling_lasts(tiles_along(before), before.last().position, walk.last());
    }
    lemma_tile_within_reach(tiles_along(walk), walk.last().position);
}

/// A walk without its last place is a walk, and a stroll a stroll.
proof fn lemma_walk_so_far(walk: Seq<Player>)
    requires
        walk.len() > 0,
        is_walk(walk),
    ensures
        is_walk(walk.drop_last()),
        is_stroll(walk) ==> is_stroll(walk.drop_last()),
{
    let before = walk.drop_last();
    assert forall|i: int| 0 <= i < before.len() implies {
        &&& (#[trigger] before[i]).position.in_world()
        &&& -AREA_WIDTH <= before[i].position.x <= AREA_WIDTH
    } by {
        assert(before[i] == walk[i]);
    }
    assert forall|i: int| 0 < i < before.len() implies -BACKGROUND_HEIGHT <= (
    #[trigger] before[i]).position.y - before[i - 1].position.y <= BACKGROUND_HEIGHT by {
        assert(before[i] == walk[i]);
        assert(before[i - 1] == walk[i - 1]);
    }
    if is_stroll(walk) {
        assert forall|i: int| 0 < i < before.len() implies -BACKGROUND_HEIGHT <= 3 * ((
        #[trigger] before[i]).position.y - before[i - 1].position.y) <= BACKGROUND_HEIGHT by {
            assert(before[i] == walk[i]);
            assert(before[i - 1] == walk[i - 1]);
        }
    }
}

/// Whether from each place of `walk` to the next it is no more than a
/// third of a tile height up or down.
pub open spec fn is_stroll(walk: Seq<Player>) -> bool {
    forall|i: int|
        0 < i < walk.len() ==> -BACKGROUND_HEIGHT <= 3 * ((#[trigger] walk[i]).position.y - walk[i
            - 1].position.y) <= BACKGROUND_HEIGHT
}

/// The ground comes to reach a full tile height beyond the player both
/// ways: from the fourth tick of a stroll on, the first tile lies at least a
/// tile height below the player and the last at least a tile height above.
/// On the first ticks it cannot, as one tile is laid at each end in a tick.
pub proof fn lemma_cover_along_stroll(walk: Seq<Player>)
    requires
        walk.len() >= 4,
        is_walk(walk),
        is_stroll(walk),
    ensures
        is_covered(tiles_along(walk), walk.last().position),
{
    let n = walk.len() as int;
    let third = walk.drop_last();
    let second = third.drop_last();
    let first = second.drop_last();
    lemma_walk_so_far(walk);
    lemma_walk_so_far(third);
    lemma_walk_so_far(second);
    assert(walk.last() == walk[n - 1]);
    assert(third.last() == walk[n - 2]);
    assert(second.last() == walk[n - 3]);
    assert(first.last() == walk[n - 4]);
    let spot_a = walk[n - 4].position;
    let spot_b = walk[n - 3].position;
    let spot_c = walk[n - 2].position;
    let spot_d = walk[n - 1].position;
    let laid_a = tiles_along(first);
    let laid_b = tiles_along(second);
    let laid_c = tiles_along(third);
    let laid_d = tiles_along(walk);
    assert(laid_b == tiles_after(Paused::Unpaused, Some(second.last()), laid_a));
    assert(laid_c == tiles_after(Paused::Unpaused, Some(third.last()), laid_b));
    assert(laid_d == tiles_after(Paused::Unpaused, Some(walk.last()), laid_c));
    lemma_tiling_along_walk(first);
    lemma_tiling_along_walk(second);
    lemma_tiling_along_walk(third);
    lemma_tiling_along_walk(walk);
    lemma_tiling_lasts(laid_a, spot_a, walk[n - 3]);
    lemma_tiling_lasts(laid_b, spot_b, walk[n - 2]);
    lemma_tiling_lasts(laid_c, spot_c, walk[n - 1]);
    assert(reach_above(laid_a, spot_a) >= -BACKGROUND_HEIGHT);
    assert(reach_below(laid_a, spot_a) >= -BACKGROUND_HEIGHT);
    assert(reach_above(laid_a, spot_b) == reach_above(laid_a, spot_a) - (spot_b.y - spot_a.y));
    assert(reach_above(laid_b, spot_c) == reach_above(laid_b, spot_b) - (spot_c.y - spot_b.y));
    assert(reach_above(laid_c, spot_d) == reach_above(laid_c, spot_c) - (spot_d.y - spot_c.y));
    assert(reach_below(laid_a, spot_b) == reach_below(laid_a, spot_a) + (spot_b.y - spot_a.y));
    assert(reach_below(laid_b, spot_c) == reach_below(laid_b, spot_b) + (spot_c.y - spot_b.y));
    assert(reach_below(laid_c, spot_d) == reach_below(laid_c, spot_c) + (spot_d.y - spot_c.y));
}

/// Steering does not outrun the tiles: if the ground is tiled around a
/// player who stands in the world, no car blocks, and the player's speed
/// carries no farther than a tile height in a tick, then after a tick of
/// steering and a tick of the background the ground is tiled around where
/// the player has come to stand.
pub proof fn lemma_tiling_follows_steering(
    tiles: Seq<Background>,
    player: Player,
    input: Input,
    cars: Seq<Car>,
    end: Position,
)
    requires
        is_tiled(tiles, player.position),
        player.position.in_world(),
        blocking_car(cars) is None,
        player.speed as int / SPEED_PER_LENGTH as int <= BACKGROUND_HEIGHT,
        is_moved(player, input, cars, end),
    ensures
        is_tiled(
            tiles_after(Paused::Unpaused, Some(Player { position: end, ..player }), tiles),
            end,
        ),
{
    lemma_step_bounded(input.horizontal as int, input.vertical as int, player.speed as nat);
    assert(end == steered(player, input));
    lemma_tiling_lasts(tiles, player.position, Player { position: end, ..player });
}

} // verus!
