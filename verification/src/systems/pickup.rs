//! The Pickup System: resolves pending pickup intents into inventory
//! ownership, logs the player's pickups, and clears every intent.
use vstd::prelude::*;

use crate::components::items::{InBackpack, PickupQueue};
use crate::logs::{log_v, spec_log};
use crate::world::{
    Entity, World, lemma_tinsert, lemma_tinsert_bounded, lemma_tlookup_witness, lemma_tremove,
    lemma_tremove_bounded, lemma_vmap_tlookup, names_v, thas, tinsert, tlookup, tremove, tsorted,
    tval,
};

verus! {

/// What pickup does to the position table: every intent whose target
/// carries a name frees the target's map position. An intent whose target
/// has no name is a precondition violation and is skipped whole, so the
/// target entity is left untouched.
pub open spec fn pickup_positions(
    pos: Seq<(Entity, crate::Position)>,
    names: Seq<(Entity, Seq<char>)>,
    intents: Seq<(Entity, PickupQueue)>,
) -> Seq<(Entity, crate::Position)>
    decreases intents.len(),
{
    if intents.len() == 0 {
        pos
    } else {
        let pq = intents[0].1;
        pickup_positions(
            if thas(names, pq.item) {
                tremove(pos, pq.item)
            } else {
                pos
            },
            names,
            intents.drop_first(),
        )
    }
}

/// What pickup does to the backpack table: every named target becomes
/// owned by its collector.
pub open spec fn pickup_backpacks(
    bp: Seq<(Entity, InBackpack)>,
    names: Seq<(Entity, Seq<char>)>,
    intents: Seq<(Entity, PickupQueue)>,
) -> Seq<(Entity, InBackpack)>
    decreases intents.len(),
{
    if intents.len() == 0 {
        bp
    } else {
        let pq = intents[0].1;
        pickup_backpacks(
            if thas(names, pq.item) {
                tinsert(bp, pq.item, InBackpack { owner: pq.collected_by })
            } else {
                bp
            },
            names,
            intents.drop_first(),
        )
    }
}

/// What pickup does to the log: one line per named pickup whose collector
/// is the primary player.
pub open spec fn pickup_log(
    log: Seq<Seq<char>>,
    names: Seq<(Entity, Seq<char>)>,
    player: Entity,
    intents: Seq<(Entity, PickupQueue)>,
) -> Seq<Seq<char>>
    decreases intents.len(),
{
    if intents.len() == 0 {
        log
    } else {
        let pq = intents[0].1;
        pickup_log(
            if thas(names, pq.item) && pq.collected_by == player {
                spec_log(log, "you pick up the "@ + tval(names, pq.item))
            } else {
                log
            },
            names,
            player,
            intents.drop_first(),
        )
    }
}


/// What one pickup pass does, as a function of the stage: positions,
/// backpacks and the log change per intent, and the intent table empties.
pub open spec fn pickup_stage(w: crate::world::WorldStage) -> crate::world::WorldStage {
    crate::world::WorldStage {
        positions: pickup_positions(w.positions, w.names, w.pickup_queue),
        backpacks: pickup_backpacks(w.backpacks, w.names, w.pickup_queue),
        log: pickup_log(w.log, w.names, w.player, w.pickup_queue),
        pickup_queue: Seq::empty(),
        ..w
    }
}

pub struct PickupSystem {}

impl PickupSystem {
    /// Process every pending pickup intent in entity order, then clear
    /// them all, whether or not any existed.
    pub fn run(&mut self, world: &mut World)
        requires
            old(world).wf(),
        ensures
            final(world).wf(),
            final(world).positions@ == pickup_positions(
                old(world).positions@,
                names_v(old(world).names@),
                old(world).pickup_queue@,
            ),
            final(world).backpacks@ == pickup_backpacks(
                old(world).backpacks@,
                names_v(old(world).names@),
                old(world).pickup_queue@,
            ),
            log_v(final(world).log.entries@) == pickup_log(
                log_v(old(world).log.entries@),
                names_v(old(world).names@),
                old(world).player,
                old(world).pickup_queue@,
            ),
            final(world).pickup_queue@ == Seq::<(Entity, PickupQueue)>::empty(),
            final(world).names == old(world).names,
            final(world).items == old(world).items,
            final(world).renderables == old(world).renderables,
            final(world).players == old(world).players,
            final(world).flints == old(world).flints,
            final(world).bushes == old(world).bushes,
            final(world).wooden_sticks == old(world).wooden_sticks,
            final(world).roses == old(world).roses,
            final(world).axes == old(world).axes,
            final(world).fire_pits == old(world).fire_pits,
            final(world).craft_queue == old(world).craft_queue,
            final(world).tiers == old(world).tiers,
            final(world).blockers == old(world).blockers,
            final(world).map == old(world).map,
            final(world).ui == old(world).ui,
            final(world).player == old(world).player,
            final(world).next_id == old(world).next_id,
            final(world).pending_deletes == old(world).pending_deletes,
            final(world).pending_spawns == old(world).pending_spawns,
    {
        let ghost intents = old(world).pickup_queue@;
        let ghost gnames = names_v(old(world).names@);
        proof {
            assert(intents.skip(0) =~= intents);
            assert(tsorted(gnames)) by {
                assert(forall|i: int|
                    0 <= i < old(world).names@.len() ==> (#[trigger] gnames[i]).0
                        == old(world).names@[i].0);
            }
        }
        let n = world.pickup_queue.len();
        let mut i: usize = 0;
        while i < n
            invariant
                world.wf(),
                0 <= i <= n,
                n == intents.len(),
                world.pickup_queue@ == intents,
                world.names == old(world).names,
                gnames == names_v(world.names@),
                tsorted(gnames),
                world.player == old(world).player,
                pickup_positions(world.positions@, gnames, intents.skip(i as int))
                    == pickup_positions(old(world).positions@, gnames, intents),
                pickup_backpacks(world.backpacks@, gnames, intents.skip(i as int))
                    == pickup_backpacks(old(world).backpacks@, gnames, intents),
                pickup_log(log_v(world.log.entries@), gnames, world.player, intents.skip(i as int))
                    == pickup_log(
                    log_v(old(world).log.entries@),
                    gnames,
                    old(world).player,
                    intents,
                ),
                world.items == old(world).items,
                world.renderables == old(world).renderables,
                world.players == old(world).players,
                world.flints == old(world).flints,
                world.bushes == old(world).bushes,
                world.wooden_sticks == old(world).wooden_sticks,
                world.roses == old(world).roses,
                world.axes == old(world).axes,
                world.fire_pits == old(world).fire_pits,
                world.craft_queue == old(world).craft_queue,
                world.tiers == old(world).tiers,
                world.blockers == old(world).blockers,
                world.map == old(world).map,
                world.ui == old(world).ui,
                world.next_id == old(world).next_id,
                world.pending_deletes == old(world).pending_deletes,
                world.pending_spawns == old(world).pending_spawns,
            decreases n - i,
        {
            let pq = *world.pickup_queue.val_at(i);
            proof {
                assert(intents.skip(i as int)[0] == intents[i as int]);
                assert(intents.skip(i as int).drop_first() =~= intents.skip(i as int + 1));
            }
            let ghost pre = *world;
            let has_name = world.names.contains(pq.item);
            proof {
                lemma_vmap_tlookup(world.names@, |na: crate::Name| na.name@, pq.item);
            }
            if has_name {
                world.positions.remove(pq.item);
                world.backpacks.insert(pq.item, InBackpack { owner: pq.collected_by });
                proof {
                    lemma_tremove(pre.positions@, pq.item);
                    lemma_tinsert(
                        pre.backpacks@,
                        pq.item,
                        InBackpack { owner: pq.collected_by },
                    );
                    lemma_tremove_bounded(pre.positions@, pq.item, pre.next_id);
                    lemma_tlookup_witness(pre.names@, pq.item);
                    lemma_tinsert_bounded(
                        pre.backpacks@,
                        pq.item,
                        InBackpack { owner: pq.collected_by },
                        pre.next_id,
                    );
                    assert forall|x: Entity| #[trigger] thas(world.items@, x) implies (thas(
                        world.positions@,
                        x,
                    ) != thas(world.backpacks@, x)) by {
                        if x == pq.item {
                            assert(tlookup(world.positions@, x) == None::<crate::Position>);
                            assert(tlookup(world.backpacks@, x) == Some(
                                InBackpack { owner: pq.collected_by },
                            ));
                        } else {
                            assert(tlookup(world.positions@, x) == tlookup(pre.positions@, x));
                            assert(tlookup(world.backpacks@, x) == tlookup(pre.backpacks@, x));
                            assert(thas(pre.items@, x) ==> (thas(pre.positions@, x) != thas(
                                pre.backpacks@,
                                x,
                            )));
                        }
                    }
                }
                if pq.collected_by.id == world.player.id {
                    let mut msg = "you pick up the ".to_owned();
                    match world.names.get(pq.item) {
                        Some(nm) => {
                            msg.append(nm.name.as_str());
                        },
                        None => {},
                    }
                    world.log.log(msg.as_str());
                    proof {
                        assert(pq.collected_by == world.player);
                        assert(msg@ == "you pick up the "@ + tval(gnames, pq.item));
                    }
                }
            }
            i = i + 1;
        }
        proof {
            assert(intents.skip(n as int) =~= Seq::<(Entity, PickupQueue)>::empty());
        }
        world.pickup_queue.clear();
        proof {
            assert forall|x: Entity| #[trigger] thas(world.items@, x) implies (thas(
                world.positions@,
                x,
            ) != thas(world.backpacks@, x)) by {}
        }
    }
}

/// The pickup law for one valid intent: with a single pending
/// `PickupQueue { collected_by: p, item: i }` whose target carries a name,
/// the target loses its position, gains `InBackpack { owner: p }`, and the
/// log gains a "you pick up the ..." line exactly when `p` is the primary
/// player.
pub proof fn lemma_pickup_single_intent(
    pos: Seq<(Entity, crate::Position)>,
    bp: Seq<(Entity, InBackpack)>,
    log: Seq<Seq<char>>,
    names: Seq<(Entity, Seq<char>)>,
    player: Entity,
    holder: Entity,
    p: Entity,
    i: Entity,
)
    requires
        thas(names, i),
    ensures
        pickup_positions(pos, names, seq![(holder, PickupQueue { collected_by: p, item: i })])
            == tremove(pos, i),
        pickup_backpacks(bp, names, seq![(holder, PickupQueue { collected_by: p, item: i })])
            == tinsert(bp, i, InBackpack { owner: p }),
        pickup_log(log, names, player, seq![(holder, PickupQueue { collected_by: p, item: i })])
            == if p == player {
            spec_log(log, "you pick up the "@ + tval(names, i))
        } else {
            log
        },
{
    let q = seq![(holder, PickupQueue { collected_by: p, item: i })];
    let empty = Seq::<(Entity, PickupQueue)>::empty();
    assert(q[0].1 == PickupQueue { collected_by: p, item: i });
    assert(q.drop_first() =~= empty);
    assert(pickup_positions(tremove(pos, i), names, empty) == tremove(pos, i));
    assert(pickup_backpacks(tinsert(bp, i, InBackpack { owner: p }), names, empty) == tinsert(
        bp,
        i,
        InBackpack { owner: p },
    ));
    if p == player {
        assert(pickup_log(spec_log(log, "you pick up the "@ + tval(names, i)), names, player, empty)
            == spec_log(log, "you pick up the "@ + tval(names, i)));
    } else {
        assert(pickup_log(log, names, player, empty) == log);
    }
}

} // verus!
