//! Mud, which slows down whoever stands in it.

use vstd::prelude::*;
use crate::components::enemy::{enemy_place, place_of_enemy};
use crate::components::player::{place_of_player, player_place};
use crate::components::{Enemy, Mud, Player};
use crate::geometry::Position;
use crate::resources::Paused;

verus! {

/// Finds out whom each patch of mud touches.
pub struct MudSystem;

/// The muds after a tick that began with `muds`: unchanged while the game
/// is paused, else each after a fresh look at the player and the enemy.
pub open spec fn muds_after(
    paused: Paused,
    muds: Seq<Mud>,
    player: Option<Player>,
    enemy: Option<Enemy>,
) -> Seq<Mud> {
    match paused {
        Paused::Paused => muds,
        Paused::Unpaused => Seq::new(
            muds.len(),
            |i: int| muds[i].seen(player_place(player), enemy_place(enemy)),
        ),
    }
}

impl MudSystem {
    /// One tick: every touching flag is set anew from where the player and
    /// the enemy stand now.
    pub fn run(
        &self,
        paused: Paused,
        muds: &mut Vec<Mud>,
        player: &Option<Player>,
        enemy: &Option<Enemy>,
    )
        ensures
            final(muds)@ == muds_after(paused, old(muds)@, *player, *enemy),
    {
        if paused == Paused::Paused {
            return ;
        }
        let player_position: Option<Position> = place_of_player(player);
        let enemy_position: Option<Position> = place_of_enemy(enemy);
        let mut i: usize = 0;
        while i < muds.len()
            invariant
                i <= muds.len(),
                muds.len() == old(muds).len(),
                player_position == player_place(*player),
                enemy_position == enemy_place(*enemy),
                forall|j: int|
                    0 <= j < i ==> muds@[j] == old(muds)@[j].seen(
                        player_position,
                        enemy_position,
                    ),
                forall|j: int| i <= j < muds.len() ==> muds@[j] == old(muds)@[j],
            decreases muds.len() - i,
        {
            let mut mud: Mud = muds[i];
            mud.look(player_position, enemy_position);
            muds.set(i, mud);
            i += 1;
        }
    }
}

/// Touching flags are fresh: after a tick each flag says whether its mud
/// covers the player, or the enemy, where they stand in that tick, whatever
/// the flag said before. So a flag that was set while the player stood in
/// the box is clear one tick after the player has left it.
pub proof fn lemma_mud_flags_fresh(
    muds: Seq<Mud>,
    before: Option<Player>,
    enemy_before: Option<Enemy>,
    player: Option<Player>,
    enemy: Option<Enemy>,
    i: int,
)
    requires
        0 <= i < muds.len(),
    ensures
        muds_after(Paused::Unpaused, muds, player, enemy)[i].is_player_touching == (player matches Some(
            p,
        ) && muds[i].covers(p.position)),
        muds_after(Paused::Unpaused, muds, player, enemy)[i].is_enemy_touching == (enemy matches Some(
            e,
        ) && muds[i].covers(e.position)),
        muds_after(
            Paused::Unpaused,
            muds_after(Paused::Unpaused, muds, before, enemy_before),
            player,
            enemy,
        ) == muds_after(Paused::Unpaused, muds, player, enemy),
{
    let first = muds_after(Paused::Unpaused, muds, before, enemy_before);
    let second = muds_after(Paused::Unpaused, first, player, enemy);
    let direct = muds_after(Paused::Unpaused, muds, player, enemy);
    assert forall|j: int| 0 <= j < muds.len() implies second[j] == direct[j] by {
        assert(first[j] == muds[j].seen(player_place(before), enemy_place(enemy_before)));
    }
    assert(second =~= direct);
}

/// Whether one of `muds` touches the player.
pub open spec fn mud_touches_player(muds: Seq<Mud>) -> bool {
    exists|i: int| 0 <= i < muds.len() && (#[trigger] muds[i]).is_player_touching
}

/// Whether one of `muds` touches the player.
pub fn is_mud_touching_player(muds: &Vec<Mud>) -> (hit: bool)
    ensures
        hit == mud_touches_player(muds@),
{
    let mut hit: bool = false;
    let mut i: usize = 0;
    while i < muds.len()
        invariant
            i <= muds.len(),
            hit == (exists|j: int| 0 <= j < i && (#[trigger] muds@[j]).is_player_touching),
        decreases muds.len() - i,
    {
        if muds[i].is_player_touching {
            hit = true;
        }
        i += 1;
    }
    hit
}

/// Whether one of `muds` touches the enemy.
pub open spec fn mud_touches_enemy(muds: Seq<Mud>) -> bool {
    exists|i: int| 0 <= i < muds.len() && (#[trigger] muds[i]).is_enemy_touching
}

/// Whether one of `muds` touches the enemy.
pub fn is_mud_touching_enemy(muds: &Vec<Mud>) -> (hit: bool)
    ensures
        hit == mud_touches_enemy(muds@),
{
    let mut hit: bool = false;
    let mut i: usize = 0;
    while i < muds.len()
        invariant
            i <= muds.len(),
            hit == (exists|j: int| 0 <= j < i && (#[trigger] muds@[j]).is_enemy_touching),
        decreases muds.len() - i,
    {
        if muds[i].is_enemy_touching {
            hit = true;
        }
        i += 1;
    }
    hit
}

} // verus!
