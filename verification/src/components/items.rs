//! Item-related components: flags, ownership, intent markers and tiers.
use vstd::prelude::*;

use crate::logs::{log_v, spec_log};
use crate::world::{Entity, World, thas, tinsert, tval};

verus! {

/// Eligibility flags of an item entity: whether the Pickup System may take
/// it and whether the Craft System may produce it.
#[derive(Copy, Clone, PartialEq, Eq, Structural, Debug)]
pub struct Item {
    pub can_be_picked: bool,
    pub can_be_crafted: bool,
}

impl Default for Item {
    fn default() -> (r: Item)
        ensures
            r == (Item { can_be_picked: false, can_be_crafted: false }),
    {
        Item { can_be_picked: false, can_be_crafted: false }
    }
}

/// Marks an item as inventory-held and records who holds it.
#[derive(Copy, Clone, PartialEq, Eq, Structural, Debug)]
pub struct InBackpack {
    pub owner: Entity,
}

/// A pending pickup: `collected_by` wants to take `item`.
#[derive(Copy, Clone, PartialEq, Eq, Structural, Debug)]
pub struct PickupQueue {
    pub collected_by: Entity,
    pub item: Entity,
}

/// A pending craft of the recipe whose result bears this name.
#[derive(Debug, Clone)]
pub struct CraftQueue {
    pub item_name: String,
}

/// Crafted-item tier: an ordinal level and an optional display name.
#[derive(Debug)]
pub struct Tier {
    pub level: u8,
    pub alternative_name: Option<String>,
}

/// The mathematical image of a `Tier`.
pub ghost struct TierView {
    pub level: u8,
    pub alternative_name: Option<Seq<char>>,
}

impl View for Tier {
    type V = TierView;

    open spec fn view(&self) -> TierView {
        TierView {
            level: self.level,
            alternative_name: match &self.alternative_name {
                Some(n) => Some(n@),
                None => None,
            },
        }
    }
}

/// Marks an entity as occupying its tile, preventing movement onto it.
#[derive(Copy, Clone, PartialEq, Eq, Structural, Debug)]
pub struct BlocksMovement {}

#[derive(Copy, Clone, PartialEq, Eq, Structural, Debug)]
pub struct Flint {}

#[derive(Copy, Clone, PartialEq, Eq, Structural, Debug)]
pub struct Bush {}

#[derive(Copy, Clone, PartialEq, Eq, Structural, Debug)]
pub struct WoodenStick {}

#[derive(Copy, Clone, PartialEq, Eq, Structural, Debug)]
pub struct Rose {}

#[derive(Copy, Clone, PartialEq, Eq, Structural, Debug)]
pub struct Axe {}

#[derive(Copy, Clone, PartialEq, Eq, Structural, Debug)]
pub struct FirePit {}

/// The base material name of a tier level. Only level 0 exists so far.
pub fn name_by_tier(level: u8) -> (r: &'static str)
    requires
        level == 0,
    ensures
        r@ == "Flint"@,
{
    "Flint"
}


/// The position of the player entity that a walk over the player table
/// sees last; the origin when no player has a position.
pub open spec fn last_player_pos(
    players: Seq<(Entity, crate::player::Player)>,
    positions: Seq<(Entity, crate::Position)>,
) -> crate::Position
    decreases players.len(),
{
    if players.len() == 0 {
        crate::Position { x: 0, y: 0 }
    } else if thas(positions, players.last().0) {
        tval(positions, players.last().0)
    } else {
        last_player_pos(players.drop_last(), positions)
    }
}

/// The pickup target: the last item entity in table order that sits on
/// the player's tile and may be picked up.
pub open spec fn pickup_target(
    items: Seq<(Entity, Item)>,
    positions: Seq<(Entity, crate::Position)>,
    p: crate::Position,
) -> Option<Entity>
    decreases items.len(),
{
    if items.len() == 0 {
        None
    } else if items.last().1.can_be_picked && thas(positions, items.last().0) && tval(
        positions,
        items.last().0,
    ) == p {
        Some(items.last().0)
    } else {
        pickup_target(items.drop_last(), positions, p)
    }
}

/// What the "take" command does: with an eligible item on the player's
/// tile, a pickup intent for it lands on the player entity; otherwise the
/// log notes that there is nothing to take.
pub open spec fn take_effect(
    players: Seq<(Entity, crate::player::Player)>,
    positions: Seq<(Entity, crate::Position)>,
    items: Seq<(Entity, Item)>,
    plyr: Entity,
    pre_log: Seq<Seq<char>>,
    pre_intents: Seq<(Entity, PickupQueue)>,
    post_log: Seq<Seq<char>>,
    post_intents: Seq<(Entity, PickupQueue)>,
) -> bool {
    let p = last_player_pos(players, positions);
    match pickup_target(items, positions, p) {
        None => {
            &&& post_log == spec_log(pre_log, "there is nothing to be picked up here"@)
            &&& post_intents == pre_intents
        },
        Some(t) => {
            &&& post_intents == tinsert(
                pre_intents,
                plyr,
                PickupQueue { collected_by: plyr, item: t },
            )
            &&& post_log == pre_log
        },
    }
}

/// The "take" command: find an item that may be picked up on the player's
/// tile and queue a pickup intent on the player entity; log a notice when
/// there is nothing to take.
pub fn get_item(world: &mut World)
    requires
        old(world).wf(),
    ensures
        final(world).wf(),
        take_effect(
            old(world).players@,
            old(world).positions@,
            old(world).items@,
            old(world).player,
            log_v(old(world).log.entries@),
            old(world).pickup_queue@,
            log_v(final(world).log.entries@),
            final(world).pickup_queue@,
        ),
        final(world).positions == old(world).positions,
        final(world).renderables == old(world).renderables,
        final(world).players == old(world).players,
        final(world).names == old(world).names,
        final(world).items == old(world).items,
        final(world).flints == old(world).flints,
        final(world).bushes == old(world).bushes,
        final(world).wooden_sticks == old(world).wooden_sticks,
        final(world).roses == old(world).roses,
        final(world).axes == old(world).axes,
        final(world).fire_pits == old(world).fire_pits,
        final(world).craft_queue == old(world).craft_queue,
        final(world).backpacks == old(world).backpacks,
        final(world).tiers == old(world).tiers,
        final(world).blockers == old(world).blockers,
        final(world).map == old(world).map,
        final(world).ui == old(world).ui,
        final(world).player == old(world).player,
        final(world).next_id == old(world).next_id,
        final(world).pending_deletes == old(world).pending_deletes,
        final(world).pending_spawns == old(world).pending_spawns,
{
    let ghost gplayers = world.players@;
    let ghost gpositions = world.positions@;
    let mut player_x: i32 = 0;
    let mut player_y: i32 = 0;
    proof {
        assert(gplayers.take(0) =~= Seq::<(Entity, crate::player::Player)>::empty());
    }
    let mut i: usize = 0;
    while i < world.players.len()
        invariant
            world.wf(),
            0 <= i <= gplayers.len(),
            gplayers == world.players@,
            gpositions == world.positions@,
            (crate::Position { x: player_x, y: player_y }) == last_player_pos(
                gplayers.take(i as int),
                gpositions,
            ),
        decreases gplayers.len() - i,
    {
        let e = world.players.key_at(i);
        match world.positions.get(e) {
            Some(p) => {
                player_x = p.x;
                player_y = p.y;
            },
            None => {},
        }
        proof {
            assert(gplayers.take(i as int + 1).drop_last() =~= gplayers.take(i as int));
            assert(gplayers.take(i as int + 1).last() == gplayers[i as int]);
        }
        i = i + 1;
    }
    proof {
        assert(gplayers.take(gplayers.len() as int) =~= gplayers);
    }

    let ghost gitems = world.items@;
    let ghost gp = crate::Position { x: player_x, y: player_y };
    let mut target: Option<Entity> = None;
    proof {
        assert(gitems.take(0) =~= Seq::<(Entity, Item)>::empty());
    }
    let mut k: usize = 0;
    while k < world.items.len()
        invariant
            world.wf(),
            0 <= k <= gitems.len(),
            gitems == world.items@,
            gpositions == world.positions@,
            gp == (crate::Position { x: player_x, y: player_y }),
            target == pickup_target(gitems.take(k as int), gpositions, gp),
        decreases gitems.len() - k,
    {
        let e = world.items.key_at(k);
        let it = *world.items.val_at(k);
        if it.can_be_picked {
            match world.positions.get(e) {
                Some(p) => {
                    if p.x == player_x && p.y == player_y {
                        target = Some(e);
                    }
                },
                None => {},
            }
        }
        proof {
            assert(gitems.take(k as int + 1).drop_last() =~= gitems.take(k as int));
            assert(gitems.take(k as int + 1).last() == gitems[k as int]);
        }
        k = k + 1;
    }
    proof {
        assert(gitems.take(gitems.len() as int) =~= gitems);
    }

    match target {
        None => {
            world.log.log("there is nothing to be picked up here");
        },
        Some(item) => {
            let p = world.player;
            world.pickup_queue.insert(p, PickupQueue { collected_by: p, item });
            proof {
                crate::world::lemma_tinsert(
                    old(world).pickup_queue@,
                    p,
                    PickupQueue { collected_by: p, item },
                );
                crate::world::lemma_tinsert_bounded(
                    old(world).pickup_queue@,
                    p,
                    PickupQueue { collected_by: p, item },
                    old(world).next_id,
                );
            }
        },
    }
}

} // verus!
