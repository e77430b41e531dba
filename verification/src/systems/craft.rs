//! The Craft System: resolves a pending craft intent by looking up the
//! recipe, consuming matching backpack items, and queueing the crafted
//! result for the owner's backpack.
//!
//! The execution path does not re-check ingredient sufficiency: it consumes
//! as many matching items as are held, up to each requirement, and crafts
//! regardless. Only the craft menu's preview computes a can-craft check.
use vstd::prelude::*;

use vstd::string::StringExecFns;

use crate::components::items::InBackpack;
use crate::logs::{log_v, spec_log};
use crate::spawner::{axe, fire_pit};
use crate::world::{
    Entity, SpawnRequest, World, crafts_v, lemma_vmap_tlookup, names_v, thas, tlookup, tsorted,
    tval,
};

verus! {

/// One ingredient of a recipe: how many entities bearing this name the
/// craft consumes.
pub struct Requirement {
    pub item_name: String,
    pub amount: i32,
}

/// A recipe: its ordered ingredient list and the name of its result.
pub struct Recipe {
    pub requirements: Vec<Requirement>,
    pub result_item_name: String,
}

/// The mathematical image of a recipe.
pub ghost struct RecipeView {
    pub requirements: Seq<(Seq<char>, int)>,
    pub result: Seq<char>,
}

impl View for Requirement {
    type V = (Seq<char>, int);

    open spec fn view(&self) -> (Seq<char>, int) {
        (self.item_name@, self.amount as int)
    }
}

impl View for Recipe {
    type V = RecipeView;

    open spec fn view(&self) -> RecipeView {
        RecipeView {
            requirements: self.requirements@.map_values(|r: Requirement| r@),
            result: self.result_item_name@,
        }
    }
}

/// The images of a recipe list.
pub open spec fn recipes_v(s: Seq<Recipe>) -> Seq<RecipeView> {
    s.map_values(|r: Recipe| r@)
}

/// The static recipe table.
pub open spec fn spec_recipes() -> Seq<RecipeView> {
    seq![
        RecipeView {
            requirements: seq![("Flint"@, 3), ("Wooden Stick"@, 2)],
            result: "Flint Axe"@,
        },
        RecipeView {
            requirements: seq![("Flint"@, 2), ("Wooden Stick"@, 1)],
            result: "Fire Pit"@,
        },
    ]
}

pub const RECIPE_COUNT: usize = 2;

/// The static recipe table: a flint axe and a fire pit, each made from
/// flint and wooden sticks.
pub fn recipes() -> (r: Vec<Recipe>)
    ensures
        recipes_v(r@) == spec_recipes(),
        r@.len() == RECIPE_COUNT,
{
    let mut r: Vec<Recipe> = Vec::new();
    let mut axe_reqs: Vec<Requirement> = Vec::new();
    axe_reqs.push(Requirement { item_name: "Flint".to_owned(), amount: 3 });
    axe_reqs.push(Requirement { item_name: "Wooden Stick".to_owned(), amount: 2 });
    r.push(Recipe { requirements: axe_reqs, result_item_name: "Flint Axe".to_owned() });
    let mut pit_reqs: Vec<Requirement> = Vec::new();
    pit_reqs.push(Requirement { item_name: "Flint".to_owned(), amount: 2 });
    pit_reqs.push(Requirement { item_name: "Wooden Stick".to_owned(), amount: 1 });
    r.push(Recipe { requirements: pit_reqs, result_item_name: "Fire Pit".to_owned() });
    proof {
        assert(r@[0]@.requirements =~= spec_recipes()[0].requirements);
        assert(r@[1]@.requirements =~= spec_recipes()[1].requirements);
        assert(r@[0]@ == spec_recipes()[0]);
        assert(r@[1]@ == spec_recipes()[1]);
        assert(recipes_v(r@) =~= spec_recipes());
    }
    r
}

/// The first recipe whose result bears the given name.
pub open spec fn find_recipe(rs: Seq<RecipeView>, name: Seq<char>) -> Option<RecipeView>
    decreases rs.len(),
{
    if rs.len() == 0 {
        None
    } else if rs[0].result == name {
        Some(rs[0])
    } else {
        find_recipe(rs.drop_first(), name)
    }
}

/// Whether a backpack entry is an ingredient candidate: held by `player`
/// and bearing `name`.
pub open spec fn ingredient_matches(
    entry: (Entity, InBackpack),
    names: Seq<(Entity, Seq<char>)>,
    player: Entity,
    name: Seq<char>,
) -> bool {
    entry.1.owner == player && tlookup(names, entry.0) == Some(name)
}

/// The first `amount` matching backpack entities, in table order. When
/// fewer are held, all of them.
pub open spec fn select_matching(
    bp: Seq<(Entity, InBackpack)>,
    names: Seq<(Entity, Seq<char>)>,
    player: Entity,
    name: Seq<char>,
    amount: int,
) -> Seq<Entity>
    decreases bp.len(),
{
    if amount <= 0 || bp.len() == 0 {
        Seq::empty()
    } else if ingredient_matches(bp[0], names, player, name) {
        seq![bp[0].0] + select_matching(bp.drop_first(), names, player, name, amount - 1)
    } else {
        select_matching(bp.drop_first(), names, player, name, amount)
    }
}

/// How many backpack entities match an ingredient.
pub open spec fn count_matching(
    bp: Seq<(Entity, InBackpack)>,
    names: Seq<(Entity, Seq<char>)>,
    player: Entity,
    name: Seq<char>,
) -> int
    decreases bp.len(),
{
    if bp.len() == 0 {
        0
    } else {
        (if ingredient_matches(bp[0], names, player, name) {
            1int
        } else {
            0int
        }) + count_matching(bp.drop_first(), names, player, name)
    }
}

/// Every entity the craft consumes: the selections of each requirement in
/// recipe order, all drawn from the same backpack state (deletion is
/// deferred to the reconciliation point).
pub open spec fn craft_deletions(
    bp: Seq<(Entity, InBackpack)>,
    names: Seq<(Entity, Seq<char>)>,
    player: Entity,
    reqs: Seq<(Seq<char>, int)>,
) -> Seq<Entity>
    decreases reqs.len(),
{
    if reqs.len() == 0 {
        Seq::empty()
    } else {
        select_matching(bp, names, player, reqs[0].0, reqs[0].1) + craft_deletions(
            bp,
            names,
            player,
            reqs.drop_first(),
        )
    }
}

/// The deferred spawn a crafted result produces, owned by the crafter.
pub open spec fn result_spawn(result: Seq<char>, owner: Entity) -> Option<SpawnRequest> {
    if result == "Flint Axe"@ {
        Some(SpawnRequest::Axe { owner, level: 0 })
    } else if result == "Fire Pit"@ {
        Some(SpawnRequest::FirePit { owner })
    } else {
        None
    }
}


/// What one craft pass does, as a function of the stage: the first intent
/// is honored — an unknown result name only logs a diagnostic, a known one
/// queues the consumed ingredients for deletion and the result for
/// creation — and the intent table empties either way.
pub open spec fn craft_stage(w: crate::world::WorldStage) -> crate::world::WorldStage {
    if w.craft_queue.len() == 0 {
        w
    } else {
        let name = w.craft_queue[0].1;
        match find_recipe(spec_recipes(), name) {
            None => crate::world::WorldStage {
                log: spec_log(w.log, "tried to craft "@ + name),
                craft_queue: Seq::empty(),
                ..w
            },
            Some(rv) => crate::world::WorldStage {
                pending_deletes: w.pending_deletes + craft_deletions(
                    w.backpacks,
                    w.names,
                    w.player,
                    rv.requirements,
                ),
                pending_spawns: (match result_spawn(rv.result, w.player) {
                    Some(sr) => w.pending_spawns.push(sr),
                    None => w.pending_spawns,
                }),
                craft_queue: Seq::empty(),
                ..w
            },
        }
    }
}

pub struct CraftSystem {}

impl CraftSystem {
    /// Honor the first pending craft intent, if any: look its recipe up,
    /// queue the consumption of matching backpack items and the creation
    /// of the result, then clear every craft intent unconditionally. An
    /// unknown result name only logs a diagnostic; nothing is consumed or
    /// spawned, and the intents are still cleared.
    pub fn run(&mut self, world: &mut World)
        requires
            old(world).wf(),
        ensures
            final(world).wf(),
            final(world).craft_queue@ == Seq::<
                (Entity, crate::components::items::CraftQueue),
            >::empty(),
            old(world).craft_queue@.len() == 0 ==> *final(world) == *old(world),
            old(world).craft_queue@.len() > 0 ==> {
                let name = crafts_v(old(world).craft_queue@)[0].1;
                match find_recipe(spec_recipes(), name) {
                    None => {
                        &&& log_v(final(world).log.entries@) == spec_log(
                            log_v(old(world).log.entries@),
                            "tried to craft "@ + name,
                        )
                        &&& final(world).pending_deletes == old(world).pending_deletes
                        &&& final(world).pending_spawns == old(world).pending_spawns
                    },
                    Some(rv) => {
                        &&& final(world).pending_deletes@ == old(world).pending_deletes@
                            + craft_deletions(
                            old(world).backpacks@,
                            names_v(old(world).names@),
                            old(world).player,
                            rv.requirements,
                        )
                        &&& final(world).pending_spawns@ == (match result_spawn(
                            rv.result,
                            old(world).player,
                        ) {
                            Some(sr) => old(world).pending_spawns@.push(sr),
                            None => old(world).pending_spawns@,
                        })
                        &&& final(world).log == old(world).log
                    },
                }
            },
            final(world).positions == old(world).positions,
            final(world).renderables == old(world).renderables,
            final(world).players == old(world).players,
            final(world).names == old(world).names,
            final(world).items == old(world).items,
            final(world).flints == old(world).flints,
            final(world).bushes == old(world).bushes,
            final(world).wooden_sticks == old(world).wooden_sticks,
            final(world).roses == old(world).roses,
            final(world).axes == old(world).axes,
            final(world).fire_pits == old(world).fire_pits,
            final(world).pickup_queue == old(world).pickup_queue,
            final(world).backpacks == old(world).backpacks,
            final(world).tiers == old(world).tiers,
            final(world).blockers == old(world).blockers,
            final(world).map == old(world).map,
            final(world).ui == old(world).ui,
            final(world).player == old(world).player,
            final(world).next_id == old(world).next_id,
    {
        if world.craft_queue.len() == 0 {
            proof {
                assert(world.craft_queue@ =~= Seq::<
                    (Entity, crate::components::items::CraftQueue),
                >::empty());
            }
            return ;
        }
        let item_name: String = world.craft_queue.val_at(0).item_name.clone();
        proof {
            assert(crafts_v(world.craft_queue@)[0].1 == item_name@);
        }
        let ghost gname = item_name@;
        let rs = recipes();
        let ghost grecipes = spec_recipes();
        proof {
            assert(grecipes.skip(0) =~= grecipes);
        }

        let mut ri: usize = 0;
        let mut found: bool = false;
        while ri < rs.len() && !found
            invariant
                rs@.len() == RECIPE_COUNT,
                recipes_v(rs@) == grecipes,
                gname == item_name@,
                0 <= ri <= rs@.len(),
                !found ==> find_recipe(grecipes, gname) == find_recipe(
                    grecipes.skip(ri as int),
                    gname,
                ),
                found ==> ri < rs@.len() && find_recipe(grecipes, gname) == Some(
                    grecipes[ri as int],
                ),
            decreases rs@.len() - ri, (if found { 0int } else { 1int }),
        {
            proof {
                assert(grecipes.skip(ri as int)[0] == grecipes[ri as int]);
                assert(grecipes.skip(ri as int).drop_first() =~= grecipes.skip(ri as int + 1));
                assert(recipes_v(rs@)[ri as int] == rs@[ri as int]@);
                assert(grecipes[ri as int].result == rs@[ri as int].result_item_name@);
            }
            let rn: &String = &rs[ri].result_item_name;
            let same: bool = rn.eq(&item_name);
            proof {
                assert(rn@ == rs@[ri as int].result_item_name@);
                assert(same == (rs@[ri as int].result_item_name@ == item_name@));
            }
            if same {
                found = true;
                proof {
                    assert(gname == grecipes[ri as int].result);
                    assert(find_recipe(grecipes.skip(ri as int), gname) == Some(
                        grecipes[ri as int],
                    ));
                }
            } else {
                proof {
                    assert(gname != grecipes[ri as int].result);
                    assert(find_recipe(grecipes.skip(ri as int), gname) == find_recipe(
                        grecipes.skip(ri as int + 1),
                        gname,
                    ));
                }
                ri = ri + 1;
            }
        }
        proof {
            if !found {
                assert(grecipes.skip(rs@.len() as int) =~= Seq::<RecipeView>::empty());
            }
        }

        if !found {
            let mut msg = "tried to craft ".to_owned();
            msg.append(item_name.as_str());
            world.log.log(msg.as_str());
            world.craft_queue.clear();
            return ;
        }

        let ghost rv = grecipes[ri as int];
        let ghost gbp = world.backpacks@;
        let ghost gnames = names_v(world.names@);
        proof {
            assert(tsorted(gnames)) by {
                assert(forall|i: int|
                    0 <= i < world.names@.len() ==> (#[trigger] gnames[i]).0 == world.names@[i].0);
            }
        }

        let reqs_len = rs[ri].requirements.len();
        proof {
            assert(recipes_v(rs@)[ri as int] == rs@[ri as int]@);
            assert(rs@[ri as int]@.requirements.len() == reqs_len);
            assert(rv.requirements.skip(0) =~= rv.requirements);
        }
        let mut qi: usize = 0;
        while qi < reqs_len
            invariant
                old(world).wf(),
                world.wf(),
                0 <= qi <= reqs_len,
                0 <= ri < rs@.len(),
                recipes_v(rs@) == grecipes,
                rv == grecipes[ri as int],
                reqs_len == rv.requirements.len(),
                gbp == world.backpacks@,
                gnames == names_v(world.names@),
                tsorted(gnames),
                world.backpacks == old(world).backpacks,
                world.names == old(world).names,
                world.player == old(world).player,
                world.pending_deletes@ + craft_deletions(
                    gbp,
                    gnames,
                    world.player,
                    rv.requirements.skip(qi as int),
                ) == old(world).pending_deletes@ + craft_deletions(
                    gbp,
                    gnames,
                    world.player,
                    rv.requirements,
                ),
                world.positions == old(world).positions,
                world.renderables == old(world).renderables,
                world.players == old(world).players,
                world.items == old(world).items,
                world.flints == old(world).flints,
                world.bushes == old(world).bushes,
                world.wooden_sticks == old(world).wooden_sticks,
                world.roses == old(world).roses,
                world.axes == old(world).axes,
                world.fire_pits == old(world).fire_pits,
                world.pickup_queue == old(world).pickup_queue,
                world.craft_queue == old(world).craft_queue,
                world.tiers == old(world).tiers,
                world.blockers == old(world).blockers,
                world.map == old(world).map,
                world.log == old(world).log,
                world.ui == old(world).ui,
                world.next_id == old(world).next_id,
                world.pending_spawns == old(world).pending_spawns,
            decreases reqs_len - qi,
        {
            proof {
                assert(rv.requirements.skip(qi as int)[0] == rv.requirements[qi as int]);
                assert(rv.requirements.skip(qi as int).drop_first() =~= rv.requirements.skip(
                    qi as int + 1,
                ));
                assert(rv.requirements[qi as int] == rs@[ri as int].requirements@[qi as int]@);
            }
            let ghost req_name: Seq<char> = rv.requirements[qi as int].0;
            proof {
                assert(recipes_v(rs@)[ri as int] == rs@[ri as int]@);
                assert(rv == rs@[ri as int]@);
                assert(rv.requirements[qi as int] == rs@[ri as int].requirements@[qi as int]@);
                assert(rs@[ri as int].requirements@.len() == rv.requirements.len());
            }
            let amount = rs[ri].requirements[qi].amount;
            let ghost pend0 = world.pending_deletes@;
            proof {
                assert(gbp.skip(0) =~= gbp);
            }
            let mut taken: i32 = 0;
            let mut bi: usize = 0;
            while bi < world.backpacks.len() && taken < amount
                invariant
                    world.wf(),
                    0 <= bi <= gbp.len(),
                    0 <= taken <= amount || (amount <= 0 && taken == 0),
                    gbp == world.backpacks@,
                    gnames == names_v(world.names@),
                    tsorted(gnames),
                    world.backpacks == old(world).backpacks,
                    world.names == old(world).names,
                    world.player == old(world).player,
                    rv.requirements[qi as int] == (req_name, amount as int),
                    qi < reqs_len,
                    reqs_len == rv.requirements.len(),
                    rv == grecipes[ri as int],
                    recipes_v(rs@) == grecipes,
                    0 <= ri < rs@.len(),
                    world.pending_deletes@ + select_matching(
                        gbp.skip(bi as int),
                        gnames,
                        world.player,
                        req_name,
                        amount - taken,
                    ) == pend0 + select_matching(gbp, gnames, world.player, req_name, amount as int),
                    world.positions == old(world).positions,
                    world.renderables == old(world).renderables,
                    world.players == old(world).players,
                    world.items == old(world).items,
                    world.flints == old(world).flints,
                    world.bushes == old(world).bushes,
                    world.wooden_sticks == old(world).wooden_sticks,
                    world.roses == old(world).roses,
                    world.axes == old(world).axes,
                    world.fire_pits == old(world).fire_pits,
                    world.pickup_queue == old(world).pickup_queue,
                    world.craft_queue == old(world).craft_queue,
                    world.tiers == old(world).tiers,
                    world.blockers == old(world).blockers,
                    world.map == old(world).map,
                    world.log == old(world).log,
                    world.ui == old(world).ui,
                    world.next_id == old(world).next_id,
                    world.pending_spawns == old(world).pending_spawns,
                decreases gbp.len() - bi,
            {
                proof {
                    assert(gbp.skip(bi as int)[0] == gbp[bi as int]);
                    assert(gbp.skip(bi as int).drop_first() =~= gbp.skip(bi as int + 1));
                }
                let e = world.backpacks.key_at(bi);
                let owner = world.backpacks.val_at(bi).owner;
                proof {
                    assert(recipes_v(rs@)[ri as int] == rs@[ri as int]@);
                    assert(rv == rs@[ri as int]@);
                    assert(rv.requirements[qi as int] == rs@[ri as int].requirements@[qi as int]@);
                    assert(rs@[ri as int].requirements@.len() == rv.requirements.len());
                }
                let mut is_match: bool = false;
                if owner.id == world.player.id {
                    match world.names.get(e) {
                        Some(nm) => {
                            proof {
                                lemma_vmap_tlookup(world.names@, |na: crate::Name| na.name@, e);
                            }
                            if nm.name.eq(&rs[ri].requirements[qi].item_name) {
                                is_match = true;
                            }
                        },
                        None => {
                            proof {
                                lemma_vmap_tlookup(world.names@, |na: crate::Name| na.name@, e);
                            }
                        },
                    }
                }
                if is_match {
                    let ghost pend_pre = world.pending_deletes@;
                    world.delete_deferred(e);
                    taken = taken + 1;
                    proof {
                        assert(ingredient_matches(gbp[bi as int], gnames, world.player, req_name));
                        assert(world.pending_deletes@ =~= pend_pre + seq![e]);
                        assert((pend_pre + seq![e]) + select_matching(
                            gbp.skip(bi as int + 1),
                            gnames,
                            world.player,
                            req_name,
                            amount - taken,
                        ) =~= pend_pre + (seq![e] + select_matching(
                            gbp.skip(bi as int + 1),
                            gnames,
                            world.player,
                            req_name,
                            amount - taken,
                        )));
                    }
                } else {
                    proof {
                        assert(!ingredient_matches(gbp[bi as int], gnames, world.player, req_name));
                    }
                }
                bi = bi + 1;
            }
            proof {
                if taken == amount || amount <= 0 {
                    assert(select_matching(
                        gbp.skip(bi as int),
                        gnames,
                        world.player,
                        req_name,
                        amount - taken,
                    ) =~= Seq::<Entity>::empty());
                } else {
                    assert(gbp.skip(gbp.len() as int) =~= Seq::<(Entity, InBackpack)>::empty());
                }
                assert(world.pending_deletes@ =~= pend0 + select_matching(
                    gbp,
                    gnames,
                    world.player,
                    req_name,
                    amount as int,
                ));
                assert((pend0 + select_matching(gbp, gnames, world.player, req_name, amount as int))
                    + craft_deletions(gbp, gnames, world.player, rv.requirements.skip(qi as int + 1))
                    =~= pend0 + (select_matching(gbp, gnames, world.player, req_name, amount as int)
                    + craft_deletions(
                    gbp,
                    gnames,
                    world.player,
                    rv.requirements.skip(qi as int + 1),
                )));
            }
            qi = qi + 1;
        }
        proof {
            assert(rv.requirements.skip(reqs_len as int) =~= Seq::<(Seq<char>, int)>::empty());
            assert(world.pending_deletes@ + Seq::<Entity>::empty() =~= world.pending_deletes@);
            assert(old(world).pending_deletes@ + craft_deletions(
                gbp,
                gnames,
                world.player,
                rv.requirements,
            ) =~= world.pending_deletes@);
        }

        if item_name.eq(&"Flint Axe".to_owned()) {
            let p = world.player;
            axe(world, p, 0);
        } else if item_name.eq(&"Fire Pit".to_owned()) {
            let p = world.player;
            fire_pit(world, p);
        } else {
            let mut msg = "tried to craft ".to_owned();
            msg.append(item_name.as_str());
            world.log.log(msg.as_str());
        }

        world.craft_queue.clear();
        proof {
            assert(rv.result == gname) by {
                lemma_find_recipe_result(grecipes, gname);
            }
        }
    }
}

/// Whatever `find_recipe` returns bears the name it was asked for.
pub proof fn lemma_find_recipe_result(rs: Seq<RecipeView>, name: Seq<char>)
    ensures
        match find_recipe(rs, name) {
            Some(rv) => rv.result == name,
            None => true,
        },
    decreases rs.len(),
{
    if rs.len() > 0 && rs[0].result != name {
        lemma_find_recipe_result(rs.drop_first(), name);
    }
}


/// Dropping the front of a sorted table leaves it sorted.
pub proof fn lemma_tsorted_drop_first<T>(s: Seq<(Entity, T)>)
    requires
        crate::world::tsorted(s),
        s.len() > 0,
    ensures
        crate::world::tsorted(s.drop_first()),
{
    assert(forall|i: int| 0 <= i < s.len() - 1 ==> (#[trigger] s.drop_first()[i]) == s[i + 1]);
}

/// A key of the tail of a sorted table looks up the same there as in the
/// whole table, and lies above the head key.
pub proof fn lemma_tlookup_shift<T>(s: Seq<(Entity, T)>, e: Entity)
    requires
        crate::world::tsorted(s),
        s.len() > 0,
        thas(s.drop_first(), e),
    ensures
        tlookup(s, e) == tlookup(s.drop_first(), e),
        e.id > s[0].0.id,
{
    lemma_tsorted_drop_first(s);
    crate::world::lemma_tlookup_witness(s.drop_first(), e);
    let i = choose|i: int|
        0 <= i < s.drop_first().len() && s.drop_first()[i] == (
        e,
        crate::world::tval(s.drop_first(), e),
        );
    assert(s[i + 1] == s.drop_first()[i]);
    crate::world::lemma_tlookup_at(s, i + 1);
    crate::world::lemma_tlookup_at(s.drop_first(), i);
}

/// How ingredient selection behaves on a sorted backpack: it yields
/// `amount` entities when at least that many match and all matching ones
/// otherwise; each selected entity is a matching, player-owned backpack
/// entry; and the selection is strictly increasing in id, hence free of
/// duplicates.
pub proof fn lemma_select_matching(
    bp: Seq<(Entity, InBackpack)>,
    names: Seq<(Entity, Seq<char>)>,
    player: Entity,
    name: Seq<char>,
    amount: int,
)
    requires
        crate::world::tsorted(bp),
        amount >= 0,
    ensures
        0 <= count_matching(bp, names, player, name) <= bp.len(),
        select_matching(bp, names, player, name, amount).len() == (if amount <= count_matching(
            bp,
            names,
            player,
            name,
        ) {
            amount
        } else {
            count_matching(bp, names, player, name)
        }),
        forall|k: int|
            0 <= k < select_matching(bp, names, player, name, amount).len() ==> {
                let e = #[trigger] select_matching(bp, names, player, name, amount)[k];
                &&& thas(bp, e)
                &&& crate::world::tval(bp, e).owner == player
                &&& tlookup(names, e) == Some(name)
            },
        forall|k1: int, k2: int|
            0 <= k1 < k2 < select_matching(bp, names, player, name, amount).len()
                ==> #[trigger] select_matching(bp, names, player, name, amount)[k1].id
                < #[trigger] select_matching(bp, names, player, name, amount)[k2].id,
    decreases bp.len(),
{
    let sel = select_matching(bp, names, player, name, amount);
    if amount <= 0 || bp.len() == 0 {
        lemma_count_matching_bounds(bp, names, player, name);
    } else {
        lemma_tsorted_drop_first(bp);
        lemma_count_matching_bounds(bp, names, player, name);
        if ingredient_matches(bp[0], names, player, name) {
            lemma_select_matching(bp.drop_first(), names, player, name, amount - 1);
            let rest = select_matching(bp.drop_first(), names, player, name, amount - 1);
            assert(sel == seq![bp[0].0] + rest);
            assert(sel[0] == bp[0].0);
            assert(forall|k: int| 0 <= k < rest.len() ==> sel[k + 1] == rest[k]);
            crate::world::lemma_tlookup_at(bp, 0);
            assert forall|k: int| 0 <= k < sel.len() implies {
                let e = #[trigger] sel[k];
                &&& thas(bp, e)
                &&& crate::world::tval(bp, e).owner == player
                &&& tlookup(names, e) == Some(name)
            } by {
                if k == 0 {
                    assert(tlookup(bp, bp[0].0) == Some(bp[0].1));
                } else {
                    assert(sel[k] == rest[k - 1]);
                    lemma_tlookup_shift(bp, rest[k - 1]);
                }
            }
            assert forall|k1: int, k2: int| 0 <= k1 < k2 < sel.len() implies #[trigger] sel[k1].id
                < #[trigger] sel[k2].id by {
                if k1 == 0 {
                    assert(sel[k2] == rest[k2 - 1]);
                    lemma_tlookup_shift(bp, rest[k2 - 1]);
                } else {
                    assert(sel[k1] == rest[k1 - 1]);
                    assert(sel[k2] == rest[k2 - 1]);
                }
            }
        } else {
            lemma_select_matching(bp.drop_first(), names, player, name, amount);
            let rest = select_matching(bp.drop_first(), names, player, name, amount);
            assert(sel == rest);
            assert forall|k: int| 0 <= k < sel.len() implies {
                let e = #[trigger] sel[k];
                &&& thas(bp, e)
                &&& crate::world::tval(bp, e).owner == player
                &&& tlookup(names, e) == Some(name)
            } by {
                lemma_tlookup_shift(bp, rest[k]);
            }
        }
    }
}

/// The match count lies between zero and the backpack size.
pub proof fn lemma_count_matching_bounds(
    bp: Seq<(Entity, InBackpack)>,
    names: Seq<(Entity, Seq<char>)>,
    player: Entity,
    name: Seq<char>,
)
    ensures
        0 <= count_matching(bp, names, player, name) <= bp.len(),
    decreases bp.len(),
{
    if bp.len() > 0 {
        lemma_count_matching_bounds(bp.drop_first(), names, player, name);
    }
}

/// The flint-axe craft law: with at least three Flint and two Wooden
/// Stick entities held by the player, the craft consumes exactly three
/// entities named Flint and two named Wooden Stick, all of them distinct
/// player-owned backpack entries; the axe recipe is the one found for the
/// name "Flint Axe", and its result spawns an axe owned by the player.
pub proof fn lemma_craft_flint_axe(
    bp: Seq<(Entity, InBackpack)>,
    names: Seq<(Entity, Seq<char>)>,
    player: Entity,
)
    requires
        crate::world::tsorted(bp),
        count_matching(bp, names, player, "Flint"@) >= 3,
        count_matching(bp, names, player, "Wooden Stick"@) >= 2,
    ensures
        find_recipe(spec_recipes(), "Flint Axe"@) == Some(spec_recipes()[0]),
        result_spawn("Flint Axe"@, player) == Some(SpawnRequest::Axe { owner: player, level: 0 }),
        ({
            let dels = craft_deletions(bp, names, player, spec_recipes()[0].requirements);
            &&& dels.len() == 5
            &&& forall|k: int|
                0 <= k < 3 ==> tlookup(names, #[trigger] dels[k]) == Some("Flint"@) && thas(
                    bp,
                    dels[k],
                ) && crate::world::tval(bp, dels[k]).owner == player
            &&& forall|k: int|
                3 <= k < 5 ==> tlookup(names, #[trigger] dels[k]) == Some("Wooden Stick"@) && thas(
                    bp,
                    dels[k],
                ) && crate::world::tval(bp, dels[k]).owner == player
            &&& forall|k1: int, k2: int|
                0 <= k1 < k2 < 5 ==> (#[trigger] dels[k1]) != (#[trigger] dels[k2])
        }),
{
    let reqs = spec_recipes()[0].requirements;
    assert(reqs[0] == ("Flint"@, 3int));
    assert(reqs[1] == ("Wooden Stick"@, 2int));
    let sel_f = select_matching(bp, names, player, "Flint"@, 3);
    let sel_w = select_matching(bp, names, player, "Wooden Stick"@, 2);
    lemma_select_matching(bp, names, player, "Flint"@, 3);
    lemma_select_matching(bp, names, player, "Wooden Stick"@, 2);
    let dels = craft_deletions(bp, names, player, reqs);
    assert(reqs.drop_first()[0] == reqs[1]);
    assert(reqs.drop_first().drop_first() =~= Seq::<(Seq<char>, int)>::empty());
    assert(craft_deletions(bp, names, player, reqs.drop_first().drop_first()) =~= Seq::<
        Entity,
    >::empty());
    assert(craft_deletions(bp, names, player, reqs.drop_first()) =~= sel_w);
    assert(dels =~= sel_f + sel_w);
    assert(sel_f.len() == 3);
    assert(sel_w.len() == 2);
    assert(forall|k: int| 0 <= k < 3 ==> #[trigger] dels[k] == sel_f[k]);
    assert(forall|k: int| 3 <= k < 5 ==> #[trigger] dels[k] == sel_w[k - 3]);
    assert("Flint"@ != "Wooden Stick"@) by {
        reveal_strlit("Flint");
        reveal_strlit("Wooden Stick");
        assert("Flint"@.len() == 5);
        assert("Wooden Stick"@.len() == 12);
    }
    assert forall|k1: int, k2: int|
        0 <= k1 < k2 < 5 implies (#[trigger] dels[k1]) != (#[trigger] dels[k2]) by {
        if k2 < 3 {
            assert(dels[k1] == sel_f[k1] && dels[k2] == sel_f[k2]);
            assert(sel_f[k1].id < sel_f[k2].id);
        } else if k1 >= 3 {
            assert(dels[k1] == sel_w[k1 - 3] && dels[k2] == sel_w[k2 - 3]);
            assert(sel_w[k1 - 3].id < sel_w[k2 - 3].id);
        } else {
            assert(tlookup(names, dels[k1]) == Some("Flint"@));
            assert(tlookup(names, dels[k2]) == Some("Wooden Stick"@));
        }
    }
}

} // verus!
