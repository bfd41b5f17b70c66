//! Dogs: their patrol, whom they touch, and the hold they have on whoever
//! they touch.

use vstd::prelude::*;
use crate::components::enemy::{enemy_place, place_of_enemy, ENEMY_NORMAL, ENEMY_STOPPED};
use crate::components::player::{place_of_player, player_place, PLAYER_NORMAL, PLAYER_STOPPED};
use crate::components::{Dog, Enemy, Player};
use crate::geometry::Position;
use crate::resources::Paused;

verus! {

/// Walks the dogs to and fro across the play area.
pub struct DogSystem;

/// Finds out whom each dog touches.
pub struct DogCollisionSystem;

/// Stops whoever a dog touches, and sets going again whoever stands still
/// with no dog about. The speed systems of the player and of the enemy have
/// since taken this over.
pub struct DogAttackSystem;

/// The dogs after a tick of patrol that began with `dogs`: unchanged while
/// the game is paused, else each one stride along.
pub open spec fn dogs_patrolled(paused: Paused, dogs: Seq<Dog>) -> Seq<Dog> {
    match paused {
        Paused::Paused => dogs,
        Paused::Unpaused => Seq::new(dogs.len(), |i: int| dogs[i].patrolled()),
    }
}

/// The dogs after a tick that began with `dogs`: unchanged while the game
/// is paused, else each after a fresh look at the player and the enemy.
pub open spec fn dogs_after(
    paused: Paused,
    dogs: Seq<Dog>,
    player: Option<Player>,
    enemy: Option<Enemy>,
) -> Seq<Dog> {
    match paused {
        Paused::Paused => dogs,
        Paused::Unpaused => Seq::new(
            dogs.len(),
            |i: int| dogs[i].seen(player_place(player), enemy_place(enemy)),
        ),
    }
}

impl DogSystem {
    /// One tick of patrol.
    pub fn run(&self, paused: Paused, dogs: &mut Vec<Dog>)
        ensures
            final(dogs)@ == dogs_patrolled(paused, old(dogs)@),
    {
        if paused == Paused::Paused {
            return ;
        }
        let mut i: usize = 0;
        while i < dogs.len()
            invariant
                i <= dogs.len(),
                dogs.len() == old(dogs).len(),
                forall|j: int| 0 <= j < i ==> dogs@[j] == old(dogs)@[j].patrolled(),
                forall|j: int| i <= j < dogs.len() ==> dogs@[j] == old(dogs)@[j],
            decreases dogs.len() - i,
        {
            let mut dog: Dog = dogs[i];
            dog.patrol();
            dogs.set(i, dog);
            i += 1;
        }
    }
}

impl DogCollisionSystem {
    /// One tick: every touching flag is set anew from where the player and
    /// the enemy stand now.
    pub fn run(
        &self,
        paused: Paused,
        dogs: &mut Vec<Dog>,
        player: &Option<Player>,
        enemy: &Option<Enemy>,
    )
        ensures
            final(dogs)@ == dogs_after(paused, old(dogs)@, *player, *enemy),
    {
        if paused == Paused::Paused {
            return ;
        }
        let player_position: Option<Position> = place_of_player(player);
        let enemy_position: Option<Position> = place_of_enemy(enemy);
        let mut i: usize = 0;
        while i < dogs.len()
            invariant
                i <= dogs.len(),
                dogs.len() == old(dogs).len(),
                player_position == player_place(*player),
                enemy_position == enemy_place(*enemy),
                forall|j: int|
                    0 <= j < i ==> dogs@[j] == old(dogs)@[j].seen(player_position, enemy_position),
                forall|j: int| i <= j < dogs.len() ==> dogs@[j] == old(dogs)@[j],
            decreases dogs.len() - i,
        {
            let mut dog: Dog = dogs[i];
            dog.look(player_position, enemy_position);
            dogs.set(i, dog);
            i += 1;
        }
    }
}

/// Touching flags are fresh: after a tick each flag says whether its dog
/// covers the player, or the enemy, where they stand in that tick, whatever
/// the flag said before. So a flag that was set while the player stood in
/// the box is clear one tick after the player has left it.
pub proof fn lemma_dog_flags_fresh(
    dogs: Seq<Dog>,
    before: Option<Player>,
    enemy_before: Option<Enemy>,
    player: Option<Player>,
    enemy: Option<Enemy>,
    i: int,
)
    requires
        0 <= i < dogs.len(),
    ensures
        dogs_after(Paused::Unpaused, dogs, player, enemy)[i].is_player_touching == (player matches Some(
            p,
        ) && dogs[i].covers(p.position)),
        dogs_after(Paused::Unpaused, dogs, player, enemy)[i].is_enemy_touching == (enemy matches Some(
            e,
        ) && dogs[i].covers(e.position)),
        dogs_after(
            Paused::Unpaused,
            dogs_after(Paused::Unpaused, dogs, before, enemy_before),
            player,
            enemy,
        ) == dogs_after(Paused::Unpaused, dogs, player, enemy),
{
    let first = dogs_after(Paused::Unpaused, dogs, before, enemy_before);
    let second = dogs_after(Paused::Unpaused, first, player, enemy);
    let direct = dogs_after(Paused::Unpaused, dogs, player, enemy);
    assert forall|j: int| 0 <= j < dogs.len() implies second[j] == direct[j] by {
        assert(first[j] == dogs[j].seen(player_place(before), enemy_place(enemy_before)));
    }
    assert(second =~= direct);
}

/// Whether one of `dogs` touches the player.
pub open spec fn dog_touches_player(dogs: Seq<Dog>) -> bool {
    exists|i: int| 0 <= i < dogs.len() && (#[trigger] dogs[i]).is_player_touching
}

/// Whether one of `dogs` touches the enemy.
pub open spec fn dog_touches_enemy(dogs: Seq<Dog>) -> bool {
    exists|i: int| 0 <= i < dogs.len() && (#[trigger] dogs[i]).is_enemy_touching
}

/// Whether one of `dogs` touches the player.
pub fn is_dog_touching_player(dogs: &Vec<Dog>) -> (hit: bool)
    ensures
        hit == dog_touches_player(dogs@),
{
    let mut hit: bool = false;
    let mut i: usize = 0;
    while i < dogs.len()
        invariant
            i <= dogs.len(),
            hit == (exists|j: int| 0 <= j < i && (#[trigger] dogs@[j]).is_player_touching),
        decreases dogs.len() - i,
    {
        if dogs[i].is_player_touching {
            hit = true;
        }
        i += 1;
    }
    hit
}

/// Whether one of `dogs` touches the enemy.
pub fn is_dog_touching_enemy(dogs: &Vec<Dog>) -> (hit: bool)
    ensures
        hit == dog_touches_enemy(dogs@),
{
    let mut hit: bool = false;
    let mut i: usize = 0;
    while i < dogs.len()
        invariant
            i <= dogs.len(),
            hit == (exists|j: int| 0 <= j < i && (#[trigger] dogs@[j]).is_enemy_touching),
        decreases dogs.len() - i,
    {
        if dogs[i].is_enemy_touching {
            hit = true;
        }
        i += 1;
    }
    hit
}

/// The player's speed after the dogs have had their say: none where a dog
/// touches the player; normal where no dog does, there is a dog, and the
/// player stood still; else as before.
pub open spec fn player_speed_among(dogs: Seq<Dog>, speed: u32) -> u32 {
    if dog_touches_player(dogs) {
        PLAYER_STOPPED
    } else if dogs.len() > 0 && speed == PLAYER_STOPPED {
        PLAYER_NORMAL
    } else {
        speed
    }
}

/// The enemy's speed after the dogs have had their say, one after the
/// other: a dog that touches the enemy stops it, and any other sets it
/// going at normal speed if it stands still.
pub open spec fn enemy_speed_among(dogs: Seq<Dog>, speed: u32) -> u32
    decreases dogs.len(),
{
    if dogs.len() == 0 {
        speed
    } else {
        let before = enemy_speed_among(dogs.drop_last(), speed);
        if dogs.last().is_enemy_touching {
            ENEMY_STOPPED
        } else if before == ENEMY_STOPPED {
            ENEMY_NORMAL
        } else {
            before
        }
    }
}

impl DogAttackSystem {
    /// One tick of the dogs' hold on the player and on the enemy.
    pub fn run(
        &self,
        paused: Paused,
        dogs: &Vec<Dog>,
        player: &mut Option<Player>,
        enemy: &mut Option<Enemy>,
    )
        ensures
            paused == Paused::Paused ==> *final(player) == *old(player) && *final(enemy) == *old(
                enemy,
            ),
            paused == Paused::Unpaused ==> match *old(player) {
                Some(p) => *final(player) == Some(
                    Player { speed: player_speed_among(dogs@, p.speed), ..p },
                ),
                None => *final(player) is None,
            },
            paused == Paused::Unpaused ==> match *old(enemy) {
                Some(e) => *final(enemy) == Some(
                    Enemy { speed: enemy_speed_among(dogs@, e.speed), ..e },
                ),
                None => *final(enemy) is None,
            },
    {
        if paused == Paused::Paused {
            return ;
        }
        let mut is_player_touching: bool = false;
        let mut player_speed: u32 = match player {
            Some(p) => p.speed,
            None => 0,
        };
        let mut enemy_speed: u32 = match enemy {
            Some(e) => e.speed,
            None => 0,
        };
        let ghost player_start = player_speed;
        let ghost enemy_start = enemy_speed;
        let mut i: usize = 0;
        proof {
            assert(dogs@.take(0) =~= Seq::<Dog>::empty());
        }
        while i < dogs.len()
            invariant
                i <= dogs.len(),
                is_player_touching == dog_touches_player(dogs@.take(i as int)),
                player_speed == player_speed_among(dogs@.take(i as int), player_start),
                enemy_speed == enemy_speed_among(dogs@.take(i as int), enemy_start),
            decreases dogs.len() - i,
        {
            let dog: Dog = dogs[i];
            proof {
                let before = dogs@.take(i as int);
                let now = dogs@.take(i + 1);
                assert(now.drop_last() =~= before);
                assert(now.last() == dog);
                assert(now[i as int] == dog);
                if dog_touches_player(before) {
                    let j = choose|j: int| 0 <= j < before.len() && (#[trigger] before[j]).is_player_touching;
                    assert(now[j] == before[j]);
                }
                if dog_touches_player(now) && !dog.is_player_touching {
                    let j = choose|j: int| 0 <= j < now.len() && (#[trigger] now[j]).is_player_touching;
                    assert(before[j] == now[j]);
                }
            }
            if dog.is_player_touching || is_player_touching {
                is_player_touching = true;
                player_speed = PLAYER_STOPPED;
            } else if player_speed == PLAYER_STOPPED {
                player_speed = PLAYER_NORMAL;
            }
            if dog.is_enemy_touching {
                enemy_speed = ENEMY_STOPPED;
            } else if enemy_speed == ENEMY_STOPPED {
                enemy_speed = ENEMY_NORMAL;
            }
            i += 1;
        }
        proof {
            assert(dogs@.take(i as int) =~= dogs@);
        }
        match player {
            Some(p) => {
                p.speed = player_speed;
            },
            None => {},
        }
        match enemy {
            Some(e) => {
                e.speed = enemy_speed;
            },
            None => {},
        }
    }
}

} // verus!
