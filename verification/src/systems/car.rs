//! Cars, which stop whoever runs into them.

use vstd::prelude::*;
use crate::components::enemy::{enemy_place, place_of_enemy};
use crate::components::player::{place_of_player, player_place};
use crate::components::{Car, Enemy, Player};
use crate::geometry::Position;
use crate::resources::Paused;

verus! {

/// Finds out whom each car touches.
pub struct CarSystem;

/// The cars after a tick that began with `cars`: unchanged while the game
/// is paused, else each after a fresh look at the player and the enemy.
pub open spec fn cars_after(
    paused: Paused,
    cars: Seq<Car>,
    player: Option<Player>,
    enemy: Option<Enemy>,
) -> Seq<Car> {
    match paused {
        Paused::Paused => cars,
        Paused::Unpaused => Seq::new(
            cars.len(),
            |i: int| cars[i].seen(player_place(player), enemy_place(enemy)),
        ),
    }
}

impl CarSystem {
    /// One tick: every touching flag is set anew from where the player and
    /// the enemy stand now.
    pub fn run(
        &self,
        paused: Paused,
        cars: &mut Vec<Car>,
        player: &Option<Player>,
        enemy: &Option<Enemy>,
    )
        ensures
            final(cars)@ == cars_after(paused, old(cars)@, *player, *enemy),
    {
        if paused == Paused::Paused {
            return ;
        }
        let player_position: Option<Position> = place_of_player(player);
        let enemy_position: Option<Position> = place_of_enemy(enemy);
        let mut i: usize = 0;
        while i < cars.len()
            invariant
                i <= cars.len(),
                cars.len() == old(cars).len(),
                player_position == player_place(*player),
                enemy_position == enemy_place(*enemy),
                forall|j: int|
                    0 <= j < i ==> cars@[j] == old(cars)@[j].seen(
                        player_position,
                        enemy_position,
                    ),
                forall|j: int| i <= j < cars.len() ==> cars@[j] == old(cars)@[j],
            decreases cars.len() - i,
        {
            let mut car: Car = cars[i];
            car.look(player_position, enemy_position);
            cars.set(i, car);
            i += 1;
        }
    }
}

/// Touching flags are fresh: after a tick each flag says whether its car
/// covers the player, or the enemy, where they stand in that tick, whatever
/// the flag said before. So a flag that was set while the player stood in
/// the box is clear one tick after the player has left it.
pub proof fn lemma_car_flags_fresh(
    cars: Seq<Car>,
    before: Option<Player>,
    enemy_before: Option<Enemy>,
    player: Option<Player>,
    enemy: Option<Enemy>,
    i: int,
)
    requires
        0 <= i < cars.len(),
    ensures
        cars_after(Paused::Unpaused, cars, player, enemy)[i].is_player_touching == (player matches Some(
            p,
        ) && cars[i].covers(p.position)),
        cars_after(Paused::Unpaused, cars, player, enemy)[i].is_enemy_touching == (enemy matches Some(
            e,
        ) && cars[i].covers(e.position)),
        cars_after(
            Paused::Unpaused,
            cars_after(Paused::Unpaused, cars, before, enemy_before),
            player,
            enemy,
        ) == cars_after(Paused::Unpaused, cars, player, enemy),
{
    let first = cars_after(Paused::Unpaused, cars, before, enemy_before);
    let second = cars_after(Paused::Unpaused, first, player, enemy);
    let direct = cars_after(Paused::Unpaused, cars, player, enemy);
    assert forall|j: int| 0 <= j < cars.len() implies second[j] == direct[j] by {
        assert(first[j] == cars[j].seen(player_place(before), enemy_place(enemy_before)));
    }
    assert(second =~= direct);
}

/// Whether one of `cars` touches the player.
pub open spec fn car_touches_player(cars: Seq<Car>) -> bool {
    exists|i: int| 0 <= i < cars.len() && (#[trigger] cars[i]).is_player_touching
}

/// Whether one of `cars` touches the player.
pub fn is_car_touching_player(cars: &Vec<Car>) -> (hit: bool)
    ensures
        hit == car_touches_player(cars@),
{
    let mut hit: bool = false;
    let mut i: usize = 0;
    while i < cars.len()
        invariant
            i <= cars.len(),
            hit == (exists|j: int| 0 <= j < i && (#[trigger] cars@[j]).is_player_touching),
        decreases cars.len() - i,
    {
        if cars[i].is_player_touching {
            hit = true;
        }
        i += 1;
    }
    hit
}

} // verus!
