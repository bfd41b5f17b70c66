//! Templates: each sets down the component it stands for, as it is when
//! fresh.

use vstd::prelude::*;
use crate::components::dog::Heading;
use crate::components::enemy::ENEMY_NORMAL;
use crate::components::player::PLAYER_NORMAL;
use crate::components::{Car, Dog, Enemy, Mud, Player};
use crate::geometry::Position;
use crate::placement::Placed;

verus! {

/// The template of the player.
#[derive(Clone, Copy, Debug, Default)]
pub struct PlayerPrefab;

/// The template of the enemy.
#[derive(Clone, Copy, Debug, Default)]
pub struct EnemyPrefab;

/// The template of a car.
#[derive(Clone, Copy, Debug, Default)]
pub struct CarPrefab;

/// The template of a patch of mud.
#[derive(Clone, Copy, Debug, Default)]
pub struct MudPrefab;

/// The template of a dog.
#[derive(Clone, Copy, Debug, Default)]
pub struct DogPrefab;

impl PlayerPrefab {
    /// Gives the entity a fresh player, in place of any it had.
    pub fn add_to_entity(&self, entity: &mut Option<Player>)
        ensures
            *final(entity) == Some(
                Player {
                    position: Position { x: 0, y: 0 },
                    speed: PLAYER_NORMAL,
                    is_in_car: false,
                },
            ),
    {
        *entity = Some(Player::new());
    }
}

impl EnemyPrefab {
    /// Gives the entity a fresh enemy, in place of any it had.
    pub fn add_to_entity(&self, entity: &mut Option<Enemy>)
        ensures
            *final(entity) == Some(Enemy { position: Position { x: 0, y: 0 }, speed: ENEMY_NORMAL }),
    {
        *entity = Some(Enemy::new());
    }
}

impl CarPrefab {
    /// Gives the entity a fresh car, in place of any it had.
    pub fn add_to_entity(&self, entity: &mut Option<Car>)
        ensures
            *final(entity) == Some(Car::fresh(Position { x: 0, y: 0 })),
    {
        *entity = Some(Car::new());
    }
}

impl MudPrefab {
    /// Gives the entity a fresh patch of mud, in place of any it had.
    pub fn add_to_entity(&self, entity: &mut Option<Mud>)
        ensures
            *final(entity) == Some(Mud::fresh(Position { x: 0, y: 0 })),
    {
        *entity = Some(Mud::new());
    }
}

impl DogPrefab {
    /// Gives the entity a fresh dog, in place of any it had.
    pub fn add_to_entity(&self, entity: &mut Option<Dog>)
        ensures
            *final(entity) == Some(Dog::fresh(Position { x: 0, y: 0 })),
            (*final(entity))->0.heading == Heading::Left,
    {
        *entity = Some(Dog::new());
    }
}

} // verus!
