//! The enemy: its pursuit of the player, the catch, and the pace that the
//! ground allows it.

use vstd::prelude::*;
use crate::components::enemy::{rubber_band_speed, ENEMY_NORMAL, ENEMY_SLOW, ENEMY_STOPPED};
use crate::components::{Dog, Enemy, Mud, Player};
use crate::events::{publish, written};
use crate::geometry::{distance, distance_between, is_within_radius, step, step_along, within_radius};
use crate::resources::{CollisionEvent, Paused};
use crate::systems::dog::{dog_touches_enemy, dogs_after, is_dog_touching_enemy};
use crate::systems::mud::{is_mud_touching_enemy, mud_touches_enemy, muds_after};

verus! {

/// How near the enemy has to come to catch the player: 9 world units, the
/// rim included.
pub const COLLISION_RADIUS: u32 = 9_000;

/// Moves the enemy after the player.
pub struct EnemyMovementSystem;

/// Announces the catch.
pub struct EnemyCollisionSystem;

/// Sets the enemy's pace by what the enemy stands in.
pub struct EnemyObjectCollisionSystem;

/// The enemy one tick of pursuit later: one step towards `player`, at the
/// speed that the rubber band gives it at its distance; where it stood, if
/// it stands on the player.
pub open spec fn pursued(enemy: Enemy, player: Player) -> Enemy {
    let dx = player.position.x - enemy.position.x;
    let dy = player.position.y - enemy.position.y;
    let pace = rubber_band_speed(enemy.speed as nat, distance(player.position, enemy.position));
    let stride = step(dx, dy, pace);
    Enemy { position: enemy.position.moved_by(stride.0, stride.1), ..enemy }
}

/// Whether the enemy has caught the player: their centres are no farther
/// apart than the collision radius.
pub open spec fn is_caught(player: Player, enemy: Enemy) -> bool {
    within_radius(player.position, enemy.position, COLLISION_RADIUS as nat)
}

/// Whether a catch is announced in a tick: the game runs and there are a
/// player and an enemy that has caught it.
pub open spec fn catch_announced(paused: Paused, player: Option<Player>, enemy: Option<Enemy>) -> bool {
    &&& paused == Paused::Unpaused
    &&& player matches Some(p)
    &&& enemy matches Some(e)
    &&& is_caught(p, e)
}

/// The pace of an enemy among these hazards: held by a dog before slowed
/// by mud, and normal with neither.
pub open spec fn resolved_enemy_speed(dogs: Seq<Dog>, muds: Seq<Mud>) -> u32 {
    if dog_touches_enemy(dogs) {
        ENEMY_STOPPED
    } else if mud_touches_enemy(muds) {
        ENEMY_SLOW
    } else {
        ENEMY_NORMAL
    }
}

impl EnemyMovementSystem {
    /// One tick of pursuit. Says whether an enemy was left without a player
    /// to pursue, which is worth a warning.
    pub fn run(&self, paused: Paused, player: &Option<Player>, enemy: &mut Option<Enemy>) -> (lost: bool)
        requires
            player matches Some(p) ==> p.position.in_world(),
            *old(enemy) matches Some(e) ==> e.position.in_world(),
        ensures
            *final(enemy) == match (paused, *player, *old(enemy)) {
                (Paused::Unpaused, Some(p), Some(e)) => Some(pursued(e, p)),
                _ => *old(enemy),
            },
            *final(enemy) matches Some(e) ==> e.position.in_world(),
            lost == (paused == Paused::Unpaused && *player is None && *old(enemy) is Some),
    {
        if paused == Paused::Paused {
            return false;
        }
        match player {
            Some(p) => {
                match enemy {
                    Some(e) => {
                        let dx: i64 = p.position.x - e.position.x;
                        let dy: i64 = p.position.y - e.position.y;
                        let gap: u64 = distance_between(p.position, e.position);
                        let stride: (i64, i64) = step_along(dx, dy, e.speed(gap));
                        e.position = e.position.translate(stride.0, stride.1);
                    },
                    None => {},
                }
                false
            },
            None => enemy.is_some(),
        }
    }
}

impl EnemyCollisionSystem {
    /// Whether the enemy has caught the player.
    pub fn has_caught(player: &Player, enemy: &Enemy) -> (caught: bool)
        requires
            player.position.in_world(),
            enemy.position.in_world(),
        ensures
            caught == is_caught(*player, *enemy),
    {
        is_within_radius(player.position, enemy.position, COLLISION_RADIUS)
    }

    /// One tick: where the enemy has caught the player, one event is
    /// written into the channel, and nothing else ever is. Says whether it
    /// did.
    pub fn run(
        &self,
        paused: Paused,
        player: &Option<Player>,
        enemy: &Option<Enemy>,
        collision_channel: &mut shrev::EventChannel<CollisionEvent>,
    ) -> (caught: bool)
        requires
            player matches Some(p) ==> p.position.in_world(),
            enemy matches Some(e) ==> e.position.in_world(),
        ensures
            caught == catch_announced(paused, *player, *enemy),
            written(*final(collision_channel)) == if caught {
                written(*old(collision_channel)).push(CollisionEvent)
            } else {
                written(*old(collision_channel))
            },
    {
        if paused == Paused::Paused {
            return false;
        }
        match (player, enemy) {
            (Some(p), Some(e)) => {
                if Self::has_caught(p, e) {
                    publish(collision_channel, CollisionEvent);
                    true
                } else {
                    false
                }
            },
            _ => false,
        }
    }
}

impl EnemyObjectCollisionSystem {
    /// One tick: the enemy's pace follows from the touching flags of this
    /// tick.
    pub fn run(&self, paused: Paused, enemy: &mut Option<Enemy>, dogs: &Vec<Dog>, muds: &Vec<Mud>)
        ensures
            *final(enemy) == match (paused, *old(enemy)) {
                (Paused::Unpaused, Some(e)) => Some(
                    Enemy { speed: resolved_enemy_speed(dogs@, muds@), ..e },
                ),
                _ => *old(enemy),
            },
    {
        if paused == Paused::Paused {
            return ;
        }
        match enemy {
            Some(e) => {
                let hit_by_dog: bool = is_dog_touching_enemy(dogs);
                let hit_by_mud: bool = is_mud_touching_enemy(muds);
                if hit_by_dog {
                    e.stop();
                } else if hit_by_mud {
                    e.slow_down();
                } else {
                    e.normal_speed();
                }
            },
            None => {},
        }
    }
}

/// A dog comes before mud for the enemy too: an enemy that stands in the
/// box of a dog and in the box of a mud patch at once is stopped, not
/// slowed.
pub proof fn lemma_dog_before_mud_for_enemy(
    player: Option<Player>,
    enemy: Enemy,
    dogs: Seq<Dog>,
    muds: Seq<Mud>,
    dog: int,
    mud: int,
)
    requires
        0 <= dog < dogs.len(),
        dogs[dog].covers(enemy.position),
        0 <= mud < muds.len(),
        muds[mud].covers(enemy.position),
    ensures
        resolved_enemy_speed(
            dogs_after(Paused::Unpaused, dogs, player, Some(enemy)),
            muds_after(Paused::Unpaused, muds, player, Some(enemy)),
        ) == ENEMY_STOPPED,
{
    let seen_dogs = dogs_after(Paused::Unpaused, dogs, player, Some(enemy));
    assert(seen_dogs[dog].is_enemy_touching);
}

} // verus!
