//! The player: steering, the edge of the play area, the car in the way,
//! and the pace that the ground allows.

use vstd::prelude::*;
use crate::components::player::{PLAYER_NORMAL, PLAYER_SLOW, PLAYER_STOPPED};
use crate::components::{Car, Dog, Enemy, Mud, Player};
use crate::geometry::{
    clamp, clamp_to, lemma_step_bounded, lemma_step_component_exact, magnitude, norm_squared, step,
    step_along, Position,
};
use crate::resources::Input;
use crate::units::{AREA_WIDTH, SPEED_PER_LENGTH, WORLD_LIMIT};
use crate::systems::car::{car_touches_player, is_car_touching_player};
use crate::systems::dog::{dog_touches_player, dogs_after, is_dog_touching_player};
use crate::systems::mud::{is_mud_touching_player, mud_touches_player, muds_after};
use crate::resources::Paused;

verus! {

/// The speed at which a player is pushed back out of a car: a hundredth of
/// a world unit for each step.
pub const PUSH_BACK_SPEED: u64 = 1_000;

/// Moves the player as the input steers.
pub struct PlayerSystem;

/// Where the player comes to stand by steering alone: one step along the
/// axes at the player's speed, and no farther out than the edge of the play
/// area.
pub open spec fn steered(player: Player, input: Input) -> Position {
    let stride = step(input.horizontal as int, input.vertical as int, player.speed as nat);
    let reached = player.position.moved_by(stride.0, stride.1);
    Position { x: clamp(reached.x as int, -AREA_WIDTH as int, AREA_WIDTH as int) as i64, y: reached.y }
}

/// One step of the way back out of a car: against the axes.
pub open spec fn back_step(input: Input) -> (int, int) {
    let forth = step(input.horizontal as int, input.vertical as int, PUSH_BACK_SPEED as nat);
    (-forth.0, -forth.1)
}

/// The car that blocks the player: the last of those that touch the
/// player, if any does.
pub open spec fn blocking_car(cars: Seq<Car>) -> Option<Car>
    decreases cars.len(),
{
    if cars.len() == 0 {
        None
    } else if cars.last().is_player_touching {
        Some(cars.last())
    } else {
        blocking_car(cars.drop_last())
    }
}

/// Whether the point `(x, y)` lies inside the box of `car` and off its
/// border.
pub open spec fn car_blocks(car: Car, x: int, y: int) -> bool {
    &&& -car.width < x - car.position.x < car.width
    &&& -car.height < y - car.position.y < car.height
}

/// Where `steps` steps of `back` lead from `start`.
pub open spec fn way_back(start: Position, back: (int, int), steps: nat) -> (int, int) {
    (start.x + steps * back.0, start.y + steps * back.1)
}

/// Whether `car` blocks the point that `steps` steps of `back` lead to
/// from `start`.
pub open spec fn is_blocked_after(car: Car, start: Position, back: (int, int), steps: nat) -> bool {
    car_blocks(car, way_back(start, back, steps).0, way_back(start, back, steps).1)
}

/// Whether `(x, y)` is where the way back out of `car` ends: the first
/// point on the way from `start`, in steps of `back`, that the car does not
/// block.
pub open spec fn is_pushed_out(start: Position, back: (int, int), car: Car, x: int, y: int) -> bool {
    exists|steps: nat|
        {
            &&& #[trigger] way_back(start, back, steps) == (x, y)
            &&& !car_blocks(car, x, y)
            &&& forall|earlier: nat|
                earlier < steps ==> #[trigger] is_blocked_after(car, start, back, earlier)
        }
}

/// How far it still is from `(x, y)`, along the axis that `back` goes by,
/// to the border of the box of `car`; zero beyond it.
pub open spec fn way_left(car: Car, back: (int, int), x: int, y: int) -> int {
    let left = if back.0 > 0 {
        car.position.x + car.width - x
    } else if back.0 < 0 {
        x - (car.position.x - car.width)
    } else if back.1 > 0 {
        car.position.y + car.height - y
    } else {
        y - (car.position.y - car.height)
    };
    if left > 0 {
        left
    } else {
        0
    }
}

/// Whether `end` is where a player stands after a tick of steering that
/// began with `player`: where steering alone leads, unless the player has
/// steered and a car blocks; then at the end of the way back out of it,
/// held back at the world's edge.
pub open spec fn is_moved(player: Player, input: Input, cars: Seq<Car>, end: Position) -> bool {
    let reached = steered(player, input);
    let has_steered = input.horizontal != 0 || input.vertical != 0;
    match blocking_car(cars) {
        Some(car) if has_steered => exists|x: int, y: int|
            {
                &&& #[trigger] is_pushed_out(reached, back_step(input), car, x, y)
                &&& end == (Position { x: 0, y: 0 }).moved_by(x, y)
            },
        _ => end == reached,
    }
}

/// A step along axes that are not both zero leads somewhere, at any speed
/// of at least two length sub-units per tick: along the longer axis it is
/// not rounded away.
pub proof fn lemma_step_leads_somewhere(dx: int, dy: int, speed: nat)
    requires
        dx != 0 || dy != 0,
        speed >= 2 * SPEED_PER_LENGTH,
    ensures
        step(dx, dy, speed) != (0int, 0int),
        magnitude(dx) >= magnitude(dy) ==> step(dx, dy, speed).0 != 0,
        magnitude(dy) >= magnitude(dx) ==> step(dx, dy, speed).1 != 0,
{
    let n2 = norm_squared(dx, dy) as int;
    let ax = magnitude(dx) as int;
    let ay = magnitude(dy) as int;
    let s = speed as int;
    assert(ax * ax == dx * dx && ay * ay == dy * dy) by (nonlinear_arith)
        requires
            ax == dx || ax == -dx,
            ay == dy || ay == -dy,
    ;
    assert(ax * ax >= 0 && ay * ay >= 0) by (nonlinear_arith);
    assert(n2 == ax * ax + ay * ay);
    assert(n2 > 0) by (nonlinear_arith)
        requires
            n2 == ax * ax + ay * ay,
            ax >= 1 || ay >= 1,
            ax >= 0,
            ay >= 0,
    ;
    lemma_step_component_exact(dx, n2 as nat, speed);
    lemma_step_component_exact(dy, n2 as nat, speed);
    if ax >= ay {
        let size = magnitude(step(dx, dy, speed).0) as int;
        assert(size != 0) by (nonlinear_arith)
            requires
                (ax * s) * (ax * s) < (100 * (size + 1)) * (100 * (size + 1)) * n2,
                n2 == ax * ax + ay * ay,
                0 <= ay <= ax,
                s >= 200,
                size >= 0,
        ;
    }
    if ay >= ax {
        let size = magnitude(step(dx, dy, speed).1) as int;
        assert(size != 0) by (nonlinear_arith)
            requires
                (ay * s) * (ay * s) < (100 * (size + 1)) * (100 * (size + 1)) * n2,
                n2 == ax * ax + ay * ay,
                0 <= ax <= ay,
                s >= 200,
                size >= 0,
        ;
    }
}

/// Whether a car pushes the player back in a tick of steering: the player
/// has steered, a car blocks, and steering alone has led into its box.
pub open spec fn is_pushed_back(player: Player, input: Input, cars: Seq<Car>) -> bool {
    &&& input.horizontal != 0 || input.vertical != 0
    &&& blocking_car(cars) matches Some(car)
    &&& car_blocks(car, steered(player, input).x as int, steered(player, input).y as int)
}

/// Steering alone never leads out of the play area, nor out of the world.
pub proof fn lemma_steered_in_area(player: Player, input: Input)
    ensures
        -AREA_WIDTH <= steered(player, input).x <= AREA_WIDTH,
        steered(player, input).in_world(),
{
}

/// Movement is clamped: after a tick of steering the player stands within
/// the play area, whatever the axes say and wherever the player stood.
/// Excepted is the one case where a car has pushed the player back and the
/// way back out of the car has ended beyond the edge of the play area.
pub proof fn lemma_movement_clamped(player: Player, input: Input, cars: Seq<Car>, end: Position)
    requires
        is_moved(player, input, cars, end),
        is_pushed_back(player, input, cars) ==> -AREA_WIDTH <= end.x <= AREA_WIDTH,
    ensures
        -AREA_WIDTH <= end.x <= AREA_WIDTH,
{
    let reached = steered(player, input);
    lemma_steered_in_area(player, input);
    if !is_pushed_back(player, input, cars) {
        let has_steered = input.horizontal != 0 || input.vertical != 0;
        if has_steered && blocking_car(cars) is Some {
            let car = blocking_car(cars)->0;
            let back = back_step(input);
            let (x, y) = choose|x: int, y: int|
                {
                    &&& #[trigger] is_pushed_out(reached, back, car, x, y)
                    &&& end == (Position { x: 0, y: 0 }).moved_by(x, y)
                };
            let steps = choose|steps: nat|
                {
                    &&& #[trigger] way_back(reached, back, steps) == (x, y)
                    &&& !car_blocks(car, x, y)
                    &&& forall|earlier: nat|
                        earlier < steps ==> #[trigger] is_blocked_after(car, reached, back, earlier)
                };
            if steps > 0 {
                assert(is_blocked_after(car, reached, back, 0));
                assert(0 * back.0 == 0 && 0 * back.1 == 0) by (nonlinear_arith);
                assert(false);
            }
            assert(0 * back.0 == 0 && 0 * back.1 == 0) by (nonlinear_arith);
            assert(end == reached);
        }
    }
}

/// A car that pushes the player back leaves the player no farther beyond
/// its box, to either side, than one step of the way back.
pub proof fn lemma_pushed_back_near_car(start: Position, back: (int, int), car: Car, x: int, y: int)
    requires
        is_pushed_out(start, back, car, x, y),
        car_blocks(car, start.x as int, start.y as int),
    ensures
        -car.width - magnitude(back.0) < x - car.position.x < car.width + magnitude(back.0),
        -car.height - magnitude(back.1) < y - car.position.y < car.height + magnitude(back.1),
{
    let steps = choose|steps: nat|
        {
            &&& #[trigger] way_back(start, back, steps) == (x, y)
            &&& !car_blocks(car, x, y)
            &&& forall|earlier: nat|
                earlier < steps ==> #[trigger] is_blocked_after(car, start, back, earlier)
        };
    if steps == 0 {
        assert(0 * back.0 == 0 && 0 * back.1 == 0) by (nonlinear_arith);
        assert(false);
    } else {
        let earlier = (steps - 1) as nat;
        assert(is_blocked_after(car, start, back, earlier));
        assert(steps * back.0 == earlier * back.0 + back.0) by (nonlinear_arith)
            requires
                steps == earlier + 1,
        ;
        assert(steps * back.1 == earlier * back.1 + back.1) by (nonlinear_arith)
            requires
                steps == earlier + 1,
        ;
    }
}

/// A tick of steering has one outcome: the way back out of a car ends at
/// one point only.
pub proof fn lemma_moved_is_determined(
    player: Player,
    input: Input,
    cars: Seq<Car>,
    one: Position,
    other: Position,
)
    requires
        is_moved(player, input, cars, one),
        is_moved(player, input, cars, other),
    ensures
        one == other,
{
    let reached = steered(player, input);
    let has_steered = input.horizontal != 0 || input.vertical != 0;
    if has_steered && blocking_car(cars) is Some {
        let car = blocking_car(cars)->0;
        let back = back_step(input);
        let (x1, y1) = choose|x: int, y: int|
            {
                &&& #[trigger] is_pushed_out(reached, back, car, x, y)
                &&& one == (Position { x: 0, y: 0 }).moved_by(x, y)
            };
        let (x2, y2) = choose|x: int, y: int|
            {
                &&& #[trigger] is_pushed_out(reached, back, car, x, y)
                &&& other == (Position { x: 0, y: 0 }).moved_by(x, y)
            };
        let k1 = choose|steps: nat|
            {
                &&& #[trigger] way_back(reached, back, steps) == (x1, y1)
                &&& !car_blocks(car, x1, y1)
                &&& forall|earlier: nat|
                    earlier < steps ==> #[trigger] is_blocked_after(car, reached, back, earlier)
            };
        let k2 = choose|steps: nat|
            {
                &&& #[trigger] way_back(reached, back, steps) == (x2, y2)
                &&& !car_blocks(car, x2, y2)
                &&& forall|earlier: nat|
                    earlier < steps ==> #[trigger] is_blocked_after(car, reached, back, earlier)
            };
        if k1 < k2 {
            assert(is_blocked_after(car, reached, back, k1));
        }
        if k2 < k1 {
            assert(is_blocked_after(car, reached, back, k2));
        }
        assert(k1 == k2);
    }
}

/// Movement is clamped wherever the blocking car stands inside the play
/// area with a step of the way back to spare on both sides: after a tick
/// of steering the player then stands within the play area, pushed back
/// or not.
pub proof fn lemma_movement_clamped_beside_car(
    player: Player,
    input: Input,
    cars: Seq<Car>,
    end: Position,
)
    requires
        is_moved(player, input, cars, end),
        blocking_car(cars) matches Some(car) ==> -AREA_WIDTH <= car.position.x - car.width
            - PUSH_BACK_SPEED / SPEED_PER_LENGTH && car.position.x + car.width + PUSH_BACK_SPEED
            / SPEED_PER_LENGTH <= AREA_WIDTH,
    ensures
        -AREA_WIDTH <= end.x <= AREA_WIDTH,
{
    if is_pushed_back(player, input, cars) {
        let reached = steered(player, input);
        let car = blocking_car(cars)->0;
        let back = back_step(input);
        let (x, y) = choose|x: int, y: int|
            {
                &&& #[trigger] is_pushed_out(reached, back, car, x, y)
                &&& end == (Position { x: 0, y: 0 }).moved_by(x, y)
            };
        lemma_pushed_back_near_car(reached, back, car, x, y);
        lemma_step_bounded(
            input.horizontal as int,
            input.vertical as int,
            PUSH_BACK_SPEED as nat,
        );
    } else {
        lemma_movement_clamped(player, input, cars, end);
    }
}

/// The car that blocks the player, if one does.
fn find_blocking_car(cars: &Vec<Car>) -> (found: Option<Car>)
    ensures
        found == blocking_car(cars@),
{
    let mut found: Option<Car> = None;
    let mut i: usize = 0;
    proof {
        assert(cars@.take(0) =~= Seq::<Car>::empty());
    }
    while i < cars.len()
        invariant
            i <= cars.len(),
            found == blocking_car(cars@.take(i as int)),
        decreases cars.len() - i,
    {
        proof {
            assert(cars@.take(i + 1).drop_last() =~= cars@.take(i as int));
            assert(cars@.take(i + 1).last() == cars@[i as int]);
        }
        if cars[i].is_player_touching {
            found = Some(cars[i]);
        }
        i += 1;
    }
    proof {
        assert(cars@.take(i as int) =~= cars@);
    }
    found
}

/// Whether the point `(x, y)` lies inside the box of `car` and off its
/// border.
fn is_blocked_at(car: &Car, x: i128, y: i128) -> (blocked: bool)
    requires
        -0x1_0000_0000_0000_0000 <= x <= 0x1_0000_0000_0000_0000,
        -0x1_0000_0000_0000_0000 <= y <= 0x1_0000_0000_0000_0000,
    ensures
        blocked == car_blocks(*car, x as int, y as int),
{
    let dx: i128 = x - car.position.x as i128;
    let dy: i128 = y - car.position.y as i128;
    -(car.width as i128) < dx && dx < car.width as i128 && -(car.height as i128) < dy && dy
        < car.height as i128
}

/// Walks from `start` in steps of `back` until `car` no longer blocks, and
/// stops there, or at the world's edge if that comes first.
pub fn push_out(start: Position, back: (i64, i64), car: &Car) -> (end: Position)
    requires
        back.0 != 0 || back.1 != 0,
        -0x1_0000_0000 <= back.0 <= 0x1_0000_0000,
        -0x1_0000_0000 <= back.1 <= 0x1_0000_0000,
    ensures
        end.in_world(),
        exists|x: int, y: int|
            {
                &&& #[trigger] is_pushed_out(start, (back.0 as int, back.1 as int), *car, x, y)
                &&& end == (Position { x: 0, y: 0 }).moved_by(x, y)
            },
{
    let ghost by_steps = (back.0 as int, back.1 as int);
    let ghost mut steps: nat = 0;
    let mut x: i128 = start.x as i128;
    let mut y: i128 = start.y as i128;
    while is_blocked_at(car, x, y)
        invariant
            back.0 != 0 || back.1 != 0,
            -0x1_0000_0000 <= back.0 <= 0x1_0000_0000,
            -0x1_0000_0000 <= back.1 <= 0x1_0000_0000,
            by_steps == (back.0 as int, back.1 as int),
            -0x1_0000_0000_0000_0000 <= x <= 0x1_0000_0000_0000_0000,
            -0x1_0000_0000_0000_0000 <= y <= 0x1_0000_0000_0000_0000,
            way_back(start, by_steps, steps) == (x as int, y as int),
            forall|earlier: nat|
                earlier < steps ==> #[trigger] is_blocked_after(*car, start, by_steps, earlier),
        decreases way_left(*car, by_steps, x as int, y as int),
    {
        proof {
            assert(car_blocks(*car, x as int, y as int));
            assert(is_blocked_after(*car, start, by_steps, steps));
            assert((steps + 1) * by_steps.0 == steps * by_steps.0 + by_steps.0) by (nonlinear_arith);
            assert((steps + 1) * by_steps.1 == steps * by_steps.1 + by_steps.1) by (nonlinear_arith);
            steps = steps + 1;
        }
        x = x + back.0 as i128;
        y = y + back.1 as i128;
    }
    proof {
        assert(is_pushed_out(start, by_steps, *car, x as int, y as int));
    }
    Position { x: clamp_to(x, -WORLD_LIMIT, WORLD_LIMIT), y: clamp_to(y, -WORLD_LIMIT, WORLD_LIMIT) }
}

impl PlayerSystem {
    /// One tick of steering.
    pub fn run(&self, paused: Paused, player: &mut Option<Player>, input: &Input, cars: &Vec<Car>)
        ensures
            match (paused, *old(player)) {
                (Paused::Unpaused, Some(p)) => {
                    &&& *final(player) matches Some(q)
                    &&& q == (Player { position: q.position, ..p })
                    &&& is_moved(p, *input, cars@, q.position)
                    &&& q.position.in_world()
                    &&& !is_pushed_back(p, *input, cars@) ==> -AREA_WIDTH <= q.position.x
                        <= AREA_WIDTH
                },
                _ => *final(player) == *old(player),
            },
    {
        if paused == Paused::Paused {
            return ;
        }
        match player {
            Some(p) => {
                let stride: (i64, i64) = step_along(input.horizontal, input.vertical, p.speed as u64);
                let reached: Position = p.position.translate(stride.0, stride.1);
                let reached: Position = Position {
                    x: clamp_to(reached.x as i128, -AREA_WIDTH, AREA_WIDTH),
                    y: reached.y,
                };
                p.position = reached;
                let has_steered: bool = input.horizontal != 0 || input.vertical != 0;
                if has_steered {
                    match find_blocking_car(cars) {
                        Some(car) => {
                            let forth: (i64, i64) = step_along(
                                input.horizontal,
                                input.vertical,
                                PUSH_BACK_SPEED,
                            );
                            proof {
                                lemma_step_leads_somewhere(
                                    input.horizontal as int,
                                    input.vertical as int,
                                    PUSH_BACK_SPEED as nat,
                                );
                            }
                            let end: Position = push_out(reached, (-forth.0, -forth.1), &car);
                            proof {
                                let start = old(player)->0;
                                let back = ((-forth.0) as int, (-forth.1) as int);
                                assert(back == back_step(*input));
                                let (x, y) = choose|x: int, y: int|
                                    {
                                        &&& #[trigger] is_pushed_out(reached, back, car, x, y)
                                        &&& end == (Position { x: 0, y: 0 }).moved_by(x, y)
                                    };
                                assert(is_pushed_out(steered(start, *input), back_step(*input), car, x, y));
                            }
                            p.position = end;
                        },
                        None => {},
                    }
                }
                proof {
                    let start = old(player)->0;
                    if !is_pushed_back(start, *input, cars@) {
                        lemma_movement_clamped(start, *input, cars@, p.position);
                    }
                }
            },
            None => {},
        }
    }
}

/// Sets the player's pace by what the player stands in.
pub struct PlayerCollisionSystem;

/// The pace of a player among these hazards: held by a dog before slowed
/// by mud, and normal with neither.
pub open spec fn resolved_player_speed(dogs: Seq<Dog>, muds: Seq<Mud>) -> u32 {
    if dog_touches_player(dogs) {
        PLAYER_STOPPED
    } else if mud_touches_player(muds) {
        PLAYER_SLOW
    } else {
        PLAYER_NORMAL
    }
}

/// The player after the hazards have been read: at the pace they allow,
/// and in a car exactly if a car touches the player.
pub open spec fn resolved_player(player: Player, cars: Seq<Car>, dogs: Seq<Dog>, muds: Seq<Mud>) -> Player {
    Player {
        speed: resolved_player_speed(dogs, muds),
        is_in_car: car_touches_player(cars),
        ..player
    }
}

impl PlayerCollisionSystem {
    /// One tick: the player's pace and car flag follow from the touching
    /// flags of this tick.
    pub fn run(
        &self,
        paused: Paused,
        player: &mut Option<Player>,
        cars: &Vec<Car>,
        dogs: &Vec<Dog>,
        muds: &Vec<Mud>,
    )
        ensures
            *final(player) == match (paused, *old(player)) {
                (Paused::Unpaused, Some(p)) => Some(resolved_player(p, cars@, dogs@, muds@)),
                _ => *old(player),
            },
            paused == Paused::Unpaused ==> (*final(player) matches Some(q) ==> q.has_tier_speed()),
    {
        if paused == Paused::Paused {
            return ;
        }
        match player {
            Some(p) => {
                let hit_by_car: bool = is_car_touching_player(cars);
                let hit_by_dog: bool = is_dog_touching_player(dogs);
                let hit_by_mud: bool = is_mud_touching_player(muds);
                if hit_by_dog {
                    p.stop();
                } else if hit_by_mud {
                    p.slow_down();
                } else {
                    p.normal_speed();
                }
                p.is_in_car = hit_by_car;
            },
            None => {},
        }
    }
}

/// A dog comes before mud: a player who stands in the box of a dog and in
/// the box of a mud patch at once is stopped, not slowed, once the dogs and
/// the mud have looked and the player's pace has been set by what they saw.
pub proof fn lemma_dog_before_mud(
    player: Player,
    enemy: Option<Enemy>,
    cars: Seq<Car>,
    dogs: Seq<Dog>,
    muds: Seq<Mud>,
    dog: int,
    mud: int,
)
    requires
        0 <= dog < dogs.len(),
        dogs[dog].covers(player.position),
        0 <= mud < muds.len(),
        muds[mud].covers(player.position),
    ensures
        resolved_player(
            player,
            cars,
            dogs_after(Paused::Unpaused, dogs, Some(player), enemy),
            muds_after(Paused::Unpaused, muds, Some(player), enemy),
        ).speed == PLAYER_STOPPED,
        mud_touches_player(muds_after(Paused::Unpaused, muds, Some(player), enemy)),
{
    let seen_dogs = dogs_after(Paused::Unpaused, dogs, Some(player), enemy);
    let seen_muds = muds_after(Paused::Unpaused, muds, Some(player), enemy);
    assert(seen_dogs[dog].is_player_touching);
    assert(seen_muds[mud].is_player_touching);
}

} // verus!
