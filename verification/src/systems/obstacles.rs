//! Obstacles: set down at random ahead of the player, once the player is
//! well under way, and taken away again far behind.

use vstd::prelude::*;
use crate::components::{Car, Dog, Mud, Player};
use crate::geometry::{clamp_to, Position};
use crate::placement::{
    nearby, needed_top, retain_nearby, top_edge, top_needed, Placed, BACKGROUND_HEIGHT,
    BACKGROUND_WIDTH,
};
use crate::random::{random_roll, share, share_of, Roll};
use crate::resources::Paused;
use crate::units::WORLD_LIMIT;

verus! {

/// The height that the player has to pass before obstacles appear: 1000
/// world units.
pub const OBSTACLE_CREATION_HEIGHT: i64 = 1_000_000;

/// Sets obstacles down ahead of the player and takes them away behind.
pub struct ObstacleRandomizationSystem;

/// Where `roll` sets an obstacle down above `edge`: across the whole width
/// of the background, centred on zero, and less than one tile height above
/// `edge`; never beyond the world's edge.
pub open spec fn spawn_position(edge: int, roll: Roll) -> Position {
    (Position { x: 0, y: 0 }).moved_by(
        share(roll.across, BACKGROUND_WIDTH as u32) - BACKGROUND_WIDTH / 2,
        edge + share(roll.ahead, BACKGROUND_HEIGHT as u32),
    )
}

/// Where `roll` sets an obstacle down above `edge`.
pub fn spawn_point(edge: i64, roll: Roll) -> (p: Position)
    ensures
        p == spawn_position(edge as int, roll),
        p.in_world(),
        -BACKGROUND_WIDTH / 2 <= p.x < BACKGROUND_WIDTH / 2,
{
    let across: u32 = share_of(roll.across, BACKGROUND_WIDTH as u32);
    let ahead: u32 = share_of(roll.ahead, BACKGROUND_HEIGHT as u32);
    let x: i128 = across as i128 - (BACKGROUND_WIDTH / 2) as i128;
    let y: i128 = edge as i128 + ahead as i128;
    Position { x: clamp_to(x, -WORLD_LIMIT, WORLD_LIMIT), y: clamp_to(y, -WORLD_LIMIT, WORLD_LIMIT) }
}

/// `items` after one round of upkeep around `player`: those near the
/// player, and after them, where they end less than one tile height above
/// the player, a fresh one set down by `roll`.
pub open spec fn replenished<T: Placed>(items: Seq<T>, player: Position, roll: Roll) -> Seq<T> {
    let kept = nearby(items, player);
    if top_needed(kept, player.y as int) {
        kept.push(T::fresh(spawn_position(top_edge(kept, player.y as int), roll)))
    } else {
        kept
    }
}

/// The obstacles of one kind after a tick that began with `items`:
/// unchanged while the game is paused or the player has not passed the
/// creation height; none without a player; else replenished.
pub open spec fn obstacles_after<T: Placed>(
    paused: Paused,
    player: Option<Player>,
    items: Seq<T>,
    roll: Roll,
) -> Seq<T> {
    match (paused, player) {
        (Paused::Paused, _) => items,
        (Paused::Unpaused, None) => Seq::empty(),
        (Paused::Unpaused, Some(p)) => if p.position.y > OBSTACLE_CREATION_HEIGHT {
            replenished(items, p.position, roll)
        } else {
            items
        },
    }
}

/// Sets a fresh item down by `roll` where `items` end less than one tile
/// height above the player.
fn place_needed_top<T: Placed>(items: &mut Vec<T>, player_position: &Position, roll: Roll)
    requires
        player_position.in_world(),
    ensures
        final(items)@ == if top_needed(old(items)@, player_position.y as int) {
            old(items)@.push(
                T::fresh(spawn_position(top_edge(old(items)@, player_position.y as int), roll)),
            )
        } else {
            old(items)@
        },
{
    match needed_top(items, player_position.y) {
        Some(max_height) => {
            items.push(T::spawn(spawn_point(max_height, roll)));
        },
        None => {},
    }
}

/// The roll for the next of `items`: rolled now if one is due above them,
/// and left at nothing if none is, as it is then not looked at.
fn roll_if_due<T: Placed>(items: &Vec<T>, player_position: &Position) -> (roll: Roll)
    requires
        player_position.in_world(),
{
    match needed_top(items, player_position.y) {
        Some(_) => random_roll(),
        None => Roll { across: 0, ahead: 0 },
    }
}

impl ObstacleRandomizationSystem {
    /// One tick of the obstacles, with the dice rolled here: once for each
    /// obstacle that is due, and not at all where none is.
    pub fn run(
        &self,
        paused: Paused,
        player: &Option<Player>,
        muds: &mut Vec<Mud>,
        cars: &mut Vec<Car>,
        dogs: &mut Vec<Dog>,
    )
        requires
            player matches Some(p) ==> p.position.in_world(),
        ensures
            exists|mud_roll: Roll, car_roll: Roll, dog_roll: Roll|
                {
                    &&& final(muds)@ == obstacles_after(paused, *player, old(muds)@, mud_roll)
                    &&& final(cars)@ == obstacles_after(paused, *player, old(cars)@, car_roll)
                    &&& final(dogs)@ == obstacles_after(paused, *player, old(dogs)@, dog_roll)
                },
    {
        let ghost none = Roll { across: 0, ahead: 0 };
        if paused == Paused::Paused {
            proof {
                assert(muds@ == obstacles_after(paused, *player, muds@, none));
                assert(cars@ == obstacles_after(paused, *player, cars@, none));
                assert(dogs@ == obstacles_after(paused, *player, dogs@, none));
            }
            return ;
        }
        match player {
            Some(p) => {
                if p.position.y > OBSTACLE_CREATION_HEIGHT {
                    self.clear_distant_mud(muds, &p.position);
                    self.clear_distant_car(cars, &p.position);
                    self.clear_distant_dog(dogs, &p.position);
                    let mud_roll: Roll = roll_if_due(muds, &p.position);
                    self.place_needed_top_mud(muds, &p.position, mud_roll);
                    let car_roll: Roll = roll_if_due(cars, &p.position);
                    self.place_needed_top_car(cars, &p.position, car_roll);
                    let dog_roll: Roll = roll_if_due(dogs, &p.position);
                    self.place_needed_top_dog(dogs, &p.position, dog_roll);
                    proof {
                        assert(muds@ == obstacles_after(paused, *player, old(muds)@, mud_roll));
                        assert(cars@ == obstacles_after(paused, *player, old(cars)@, car_roll));
                        assert(dogs@ == obstacles_after(paused, *player, old(dogs)@, dog_roll));
                    }
                } else {
                    proof {
                        assert(muds@ == obstacles_after(paused, *player, muds@, none));
                        assert(cars@ == obstacles_after(paused, *player, cars@, none));
                        assert(dogs@ == obstacles_after(paused, *player, dogs@, none));
                    }
                }
            },
            None => {
                muds.clear();
                cars.clear();
                dogs.clear();
                proof {
                    assert(muds@ == obstacles_after(paused, *player, old(muds)@, none));
                    assert(cars@ == obstacles_after(paused, *player, old(cars)@, none));
                    assert(dogs@ == obstacles_after(paused, *player, old(dogs)@, none));
                }
            },
        }
    }

    /// One tick of the obstacles, with the dice handed in: one roll for each
    /// kind, used where one of that kind is due.
    pub fn run_with(
        &self,
        paused: Paused,
        player: &Option<Player>,
        muds: &mut Vec<Mud>,
        cars: &mut Vec<Car>,
        dogs: &mut Vec<Dog>,
        mud_roll: Roll,
        car_roll: Roll,
        dog_roll: Roll,
    )
        requires
            player matches Some(p) ==> p.position.in_world(),
        ensures
            final(muds)@ == obstacles_after(paused, *player, old(muds)@, mud_roll),
            final(cars)@ == obstacles_after(paused, *player, old(cars)@, car_roll),
            final(dogs)@ == obstacles_after(paused, *player, old(dogs)@, dog_roll),
    {
        if paused == Paused::Paused {
            return ;
        }
        match player {
            Some(p) => {
                if p.position.y > OBSTACLE_CREATION_HEIGHT {
                    self.clear_distant_mud(muds, &p.position);
                    self.clear_distant_car(cars, &p.position);
                    self.clear_distant_dog(dogs, &p.position);
                    self.place_needed_top_mud(muds, &p.position, mud_roll);
                    self.place_needed_top_car(cars, &p.position, car_roll);
                    self.place_needed_top_dog(dogs, &p.position, dog_roll);
                }
            },
            None => {
                muds.clear();
                cars.clear();
                dogs.clear();
            },
        }
    }

    /// Takes away the mud that is more than four tile heights from the
    /// player.
    fn clear_distant_mud(&self, muds: &mut Vec<Mud>, player_position: &Position)
        ensures
            final(muds)@ == nearby(old(muds)@, *player_position),
    {
        retain_nearby(muds, *player_position);
    }

    /// Takes away the cars that are more than four tile heights from the
    /// player.
    fn clear_distant_car(&self, cars: &mut Vec<Car>, player_position: &Position)
        ensures
            final(cars)@ == nearby(old(cars)@, *player_position),
    {
        retain_nearby(cars, *player_position);
    }

    /// Takes away the dogs that are more than four tile heights from the
    /// player.
    fn clear_distant_dog(&self, dogs: &mut Vec<Dog>, player_position: &Position)
        ensures
            final(dogs)@ == nearby(old(dogs)@, *player_position),
    {
        retain_nearby(dogs, *player_position);
    }

    /// Sets down a patch of mud if the player has come close to the
    /// highest one.
    fn place_needed_top_mud(&self, muds: &mut Vec<Mud>, player_position: &Position, roll: Roll)
        requires
            player_position.in_world(),
        ensures
            final(muds)@ == if top_needed(old(muds)@, player_position.y as int) {
                old(muds)@.push(
                    Mud::fresh(spawn_position(top_edge(old(muds)@, player_position.y as int), roll)),
                )
            } else {
                old(muds)@
            },
    {
        place_needed_top(muds, player_position, roll);
    }

    /// Sets down a car if the player has come close to the highest one.
    fn place_needed_top_car(&self, cars: &mut Vec<Car>, player_position: &Position, roll: Roll)
        requires
            player_position.in_world(),
        ensures
            final(cars)@ == if top_needed(old(cars)@, player_position.y as int) {
                old(cars)@.push(
                    Car::fresh(spawn_position(top_edge(old(cars)@, player_position.y as int), roll)),
                )
            } else {
                old(cars)@
            },
    {
        place_needed_top(cars, player_position, roll);
    }

    /// Sets down a dog if the player has come close to the highest one.
    fn place_needed_top_dog(&self, dogs: &mut Vec<Dog>, player_position: &Position, roll: Roll)
        requires
            player_position.in_world(),
        ensures
            final(dogs)@ == if top_needed(old(dogs)@, player_position.y as int) {
                old(dogs)@.push(
                    Dog::fresh(spawn_position(top_edge(old(dogs)@, player_position.y as int), roll)),
                )
            } else {
                old(dogs)@
            },
    {
        place_needed_top(dogs, player_position, roll);
    }
}

} // verus!
