//! Entity constructors: the player, the items scattered over the map, and
//! the crafted items that go straight into a backpack.
use vstd::prelude::*;

use crate::Name;
use crate::Position;
use crate::Renderable;
use crate::components::items::{Bush, Flint, Item, Rose, WoodenStick};
use crate::draw::Color;
use crate::map::{HEIGHT, MAP_COUNT, WIDTH, xy_to_idx};
use crate::outside::cp437_of;
use crate::player::Player;
use crate::world::{
    Entity, SpawnRequest, World, lemma_bounded_fresh, lemma_tinsert, lemma_tinsert_bounded,
    lemma_vmap_tinsert, names_v, thas, tinsert, tlookup, tval,
};

verus! {

/// Spawn the primary player entity at `(x, y)` and record it as the
/// world's player.
pub fn player(world: &mut World, x: i32, y: i32) -> (e: Entity)
    requires
        old(world).wf(),
        old(world).next_id < u64::MAX,
    ensures
        final(world).wf(),
        e.id == old(world).next_id,
        final(world).next_id == old(world).next_id + 1,
        final(world).positions@ == tinsert(old(world).positions@, e, Position { x, y }),
        final(world).renderables@ == tinsert(
            old(world).renderables@,
            e,
            Renderable {
                glyph: cp437_of('@'),
                fg: Color { r: 255, g: 255, b: 0 },
                bg: Color { r: 0, g: 0, b: 0 },
            },
        ),
        final(world).players@ == tinsert(old(world).players@, e, Player {  }),
        names_v(final(world).names@) == tinsert(names_v(old(world).names@), e, "Player"@),
        final(world).player == e,
        final(world).items == old(world).items,
        final(world).flints == old(world).flints,
        final(world).bushes == old(world).bushes,
        final(world).wooden_sticks == old(world).wooden_sticks,
        final(world).roses == old(world).roses,
        final(world).axes == old(world).axes,
        final(world).fire_pits == old(world).fire_pits,
        final(world).pickup_queue == old(world).pickup_queue,
        final(world).craft_queue == old(world).craft_queue,
        final(world).backpacks == old(world).backpacks,
        final(world).tiers == old(world).tiers,
        final(world).blockers == old(world).blockers,
        final(world).map == old(world).map,
        final(world).log == old(world).log,
        final(world).ui == old(world).ui,
        final(world).pending_deletes == old(world).pending_deletes,
        final(world).pending_spawns == old(world).pending_spawns,
{
    let e = world.allocate();
    world.positions.insert(e, Position { x, y });
    let glyph = bracket_lib::prelude::to_cp437('@');
    world.renderables.insert(
        e,
        Renderable { glyph, fg: Color::yellow(), bg: Color::black() },
    );
    world.players.insert(e, Player {  });
    world.names.insert(e, Name { name: "Player".to_owned() });
    world.player = e;
    proof {
        spawn_wf_proof(old(world), world, e);
    }
    e
}

/// The common well-formedness argument after a spawn that touched the
/// position, renderable, player/item/marker and name tables of a fresh
/// entity, putting it on the map and not into any backpack.
proof fn spawn_wf_proof(pre: &World, post: &World, e: Entity)
    requires
        pre.wf(),
        pre.next_id < u64::MAX,
        e.id == pre.next_id,
        post.next_id == pre.next_id + 1,
        post.positions@ == tinsert(pre.positions@, e, tval(post.positions@, e)),
        post.renderables@ == tinsert(pre.renderables@, e, tval(post.renderables@, e)),
        post.players@ == tinsert(pre.players@, e, Player {  }) || post.players@ == pre.players@,
        post.items@ == tinsert(pre.items@, e, tval(post.items@, e)) || post.items@ == pre.items@,
        post.names@ == tinsert(pre.names@, e, tval(post.names@, e)),
        post.flints@ == pre.flints@,
        post.bushes@ == pre.bushes@,
        post.wooden_sticks@ == pre.wooden_sticks@,
        post.roses@ == pre.roses@,
        post.axes@ == pre.axes@,
        post.fire_pits@ == pre.fire_pits@,
        post.pickup_queue@ == pre.pickup_queue@,
        post.craft_queue@ == pre.craft_queue@,
        post.backpacks@ == pre.backpacks@,
        post.tiers@ == pre.tiers@,
        post.blockers@ == pre.blockers@,
        post.map@ == pre.map@,
        post.ui == pre.ui,
        post.player.id < post.next_id,
        post.pending_spawns@ == pre.pending_spawns@,
    ensures
        post.wf(),
{
    let nn = post.next_id;
    lemma_tinsert(pre.positions@, e, tval(post.positions@, e));
    lemma_tinsert(pre.renderables@, e, tval(post.renderables@, e));
    lemma_tinsert(pre.names@, e, tval(post.names@, e));
    lemma_tinsert(pre.players@, e, Player {  });
    lemma_tinsert(pre.items@, e, tval(post.items@, e));
    assert(tbounded_all(pre, nn));
    lemma_tinsert_bounded(pre.positions@, e, tval(post.positions@, e), nn);
    lemma_tinsert_bounded(pre.renderables@, e, tval(post.renderables@, e), nn);
    lemma_tinsert_bounded(pre.names@, e, tval(post.names@, e), nn);
    lemma_tinsert_bounded(pre.players@, e, Player {  }, nn);
    lemma_tinsert_bounded(pre.items@, e, tval(post.items@, e), nn);
    lemma_bounded_fresh(pre.backpacks@, pre.next_id, e);
    lemma_bounded_fresh(pre.items@, pre.next_id, e);
    assert forall|x: Entity| #[trigger] thas(post.items@, x) implies (thas(post.positions@, x)
        != thas(post.backpacks@, x)) by {
        if x == e {
            assert(tlookup(post.positions@, e) is Some);
            assert(tlookup(post.backpacks@, e) == tlookup(pre.backpacks@, e));
        } else {
            assert(tlookup(post.items@, x) == tlookup(pre.items@, x));
            assert(tlookup(post.positions@, x) == tlookup(pre.positions@, x));
            assert(tlookup(post.backpacks@, x) == tlookup(pre.backpacks@, x));
            assert(thas(pre.items@, x) ==> (thas(pre.positions@, x) != thas(pre.backpacks@, x)));
        }
    }
}

/// All tables of `w` bounded by `n`.
pub open spec fn tbounded_all(w: &World, n: u64) -> bool {
    &&& crate::world::tbounded(w.positions@, n)
    &&& crate::world::tbounded(w.renderables@, n)
    &&& crate::world::tbounded(w.players@, n)
    &&& crate::world::tbounded(w.names@, n)
    &&& crate::world::tbounded(w.items@, n)
    &&& crate::world::tbounded(w.flints@, n)
    &&& crate::world::tbounded(w.bushes@, n)
    &&& crate::world::tbounded(w.wooden_sticks@, n)
    &&& crate::world::tbounded(w.roses@, n)
    &&& crate::world::tbounded(w.axes@, n)
    &&& crate::world::tbounded(w.fire_pits@, n)
    &&& crate::world::tbounded(w.pickup_queue@, n)
    &&& crate::world::tbounded(w.craft_queue@, n)
    &&& crate::world::tbounded(w.backpacks@, n)
    &&& crate::world::tbounded(w.tiers@, n)
    &&& crate::world::tbounded(w.blockers@, n)
}

/// Spawn one free item entity at `(x, y)`: position, glyph, flags and name.
fn spawn_ground_item(
    world: &mut World,
    x: i32,
    y: i32,
    glyph: u16,
    fg: Color,
    item: Item,
    name: &str,
) -> (e: Entity)
    requires
        old(world).wf(),
        old(world).next_id < u64::MAX,
    ensures
        final(world).wf(),
        e.id == old(world).next_id,
        final(world).next_id == old(world).next_id + 1,
        final(world).positions@ == tinsert(old(world).positions@, e, Position { x, y }),
        final(world).renderables@ == tinsert(
            old(world).renderables@,
            e,
            Renderable { glyph, fg, bg: Color { r: 0, g: 0, b: 0 } },
        ),
        final(world).items@ == tinsert(old(world).items@, e, item),
        names_v(final(world).names@) == tinsert(names_v(old(world).names@), e, name@),
        final(world).players == old(world).players,
        final(world).flints == old(world).flints,
        final(world).bushes == old(world).bushes,
        final(world).wooden_sticks == old(world).wooden_sticks,
        final(world).roses == old(world).roses,
        final(world).axes == old(world).axes,
        final(world).fire_pits == old(world).fire_pits,
        final(world).pickup_queue == old(world).pickup_queue,
        final(world).craft_queue == old(world).craft_queue,
        final(world).backpacks == old(world).backpacks,
        final(world).tiers == old(world).tiers,
        final(world).blockers == old(world).blockers,
        final(world).map == old(world).map,
        final(world).log == old(world).log,
        final(world).ui == old(world).ui,
        final(world).player == old(world).player,
        final(world).pending_deletes == old(world).pending_deletes,
        final(world).pending_spawns == old(world).pending_spawns,
{
    let e = world.allocate();
    world.positions.insert(e, Position { x, y });
    world.renderables.insert(e, Renderable { glyph, fg, bg: Color::black() });
    world.items.insert(e, item);
    world.names.insert(e, Name { name: name.to_owned() });
    proof {
        lemma_vmap_tinsert(
            old(world).names@,
            |na: Name| na.name@,
            e,
            world.names@.last().1,
        );
        spawn_wf_proof(old(world), world, e);
    }
    e
}

pub fn flint(world: &mut World, x: i32, y: i32) -> (e: Entity)
    requires
        old(world).wf(),
        old(world).next_id < u64::MAX,
    ensures
        final(world).wf(),
        e.id == old(world).next_id,
        final(world).next_id == old(world).next_id + 1,
        final(world).positions@ == tinsert(old(world).positions@, e, Position { x, y }),
        final(world).renderables@ == tinsert(
            old(world).renderables@,
            e,
            Renderable {
                glyph: cp437_of('\u{00b0}'),
                fg: Color { r: 128, g: 128, b: 128 },
                bg: Color { r: 0, g: 0, b: 0 },
            },
        ),
        final(world).items@ == tinsert(
            old(world).items@,
            e,
            Item { can_be_picked: true, can_be_crafted: false },
        ),
        names_v(final(world).names@) == tinsert(names_v(old(world).names@), e, "Flint"@),
        final(world).flints@ == tinsert(old(world).flints@, e, Flint {  }),
        final(world).players == old(world).players,
        final(world).backpacks == old(world).backpacks,
        final(world).pickup_queue == old(world).pickup_queue,
        final(world).craft_queue == old(world).craft_queue,
        final(world).bushes == old(world).bushes,
        final(world).wooden_sticks == old(world).wooden_sticks,
        final(world).roses == old(world).roses,
        final(world).axes == old(world).axes,
        final(world).fire_pits == old(world).fire_pits,
        final(world).tiers == old(world).tiers,
        final(world).blockers == old(world).blockers,
        final(world).map == old(world).map,
        final(world).log == old(world).log,
        final(world).ui == old(world).ui,
        final(world).player == old(world).player,
        final(world).pending_deletes == old(world).pending_deletes,
        final(world).pending_spawns == old(world).pending_spawns,
{
    let glyph = bracket_lib::prelude::to_cp437('\u{00b0}');
    let e = spawn_ground_item(
        world,
        x,
        y,
        glyph,
        Color::grey(),
        Item { can_be_picked: true, can_be_crafted: false },
        "Flint",
    );
    world.flints.insert(e, Flint {  });
    proof {
        marker_wf_proof(old(world), world, e);
    }
    e
}

/// The well-formedness argument after adding a marker component to the
/// entity a ground-item spawn just created.
proof fn marker_wf_proof(pre: &World, post: &World, e: Entity)
    requires
        e.id < post.next_id,
        post.next_id == pre.next_id + 1,
        crate::world::tsorted(post.positions@),
        crate::world::tsorted(post.renderables@),
        crate::world::tsorted(post.players@),
        crate::world::tsorted(post.names@),
        crate::world::tsorted(post.items@),
        crate::world::tsorted(post.pickup_queue@),
        crate::world::tsorted(post.craft_queue@),
        crate::world::tsorted(post.backpacks@),
        crate::world::tsorted(post.tiers@),
        crate::world::tsorted(post.blockers@),
        crate::world::tbounded(post.positions@, post.next_id),
        crate::world::tbounded(post.renderables@, post.next_id),
        crate::world::tbounded(post.players@, post.next_id),
        crate::world::tbounded(post.names@, post.next_id),
        crate::world::tbounded(post.items@, post.next_id),
        crate::world::tbounded(post.pickup_queue@, post.next_id),
        crate::world::tbounded(post.craft_queue@, post.next_id),
        crate::world::tbounded(post.backpacks@, post.next_id),
        crate::world::tbounded(post.tiers@, post.next_id),
        crate::world::tbounded(post.blockers@, post.next_id),
        post.item_slot_invariant(),
        post.pending_spawns_wf(),
        post.player.id < post.next_id,
        crate::map::is_generated_map(post.map@),
        post.ui.selected_option < 2,
        crate::world::tsorted(pre.flints@) && crate::world::tbounded(pre.flints@, post.next_id),
        crate::world::tsorted(pre.bushes@) && crate::world::tbounded(pre.bushes@, post.next_id),
        crate::world::tsorted(pre.wooden_sticks@) && crate::world::tbounded(
            pre.wooden_sticks@,
            post.next_id,
        ),
        crate::world::tsorted(pre.roses@) && crate::world::tbounded(pre.roses@, post.next_id),
        crate::world::tsorted(pre.axes@) && crate::world::tbounded(pre.axes@, post.next_id),
        crate::world::tsorted(pre.fire_pits@) && crate::world::tbounded(
            pre.fire_pits@,
            post.next_id,
        ),
        post.flints@ == tinsert(pre.flints@, e, Flint {  }) || post.flints@ == pre.flints@,
        post.bushes@ == tinsert(pre.bushes@, e, Bush {  }) || post.bushes@ == pre.bushes@,
        post.wooden_sticks@ == tinsert(pre.wooden_sticks@, e, WoodenStick {  })
            || post.wooden_sticks@ == pre.wooden_sticks@,
        post.roses@ == tinsert(pre.roses@, e, Rose {  }) || post.roses@ == pre.roses@,
        post.axes@ == pre.axes@,
        post.fire_pits@ == pre.fire_pits@,
    ensures
        post.wf(),
{
    lemma_tinsert(pre.flints@, e, Flint {  });
    lemma_tinsert(pre.bushes@, e, Bush {  });
    lemma_tinsert(pre.wooden_sticks@, e, WoodenStick {  });
    lemma_tinsert(pre.roses@, e, Rose {  });
    lemma_tinsert_bounded(pre.flints@, e, Flint {  }, post.next_id);
    lemma_tinsert_bounded(pre.bushes@, e, Bush {  }, post.next_id);
    lemma_tinsert_bounded(pre.wooden_sticks@, e, WoodenStick {  }, post.next_id);
    lemma_tinsert_bounded(pre.roses@, e, Rose {  }, post.next_id);
}

pub fn bush(world: &mut World, x: i32, y: i32) -> (e: Entity)
    requires
        old(world).wf(),
        old(world).next_id < u64::MAX,
    ensures
        final(world).wf(),
        e.id == old(world).next_id,
        final(world).next_id == old(world).next_id + 1,
        final(world).positions@ == tinsert(old(world).positions@, e, Position { x, y }),
        final(world).renderables@ == tinsert(
            old(world).renderables@,
            e,
            Renderable {
                glyph: cp437_of('%'),
                fg: Color { r: 0, g: 191, b: 0 },
                bg: Color { r: 0, g: 0, b: 0 },
            },
        ),
        final(world).items@ == tinsert(
            old(world).items@,
            e,
            Item { can_be_picked: false, can_be_crafted: false },
        ),
        names_v(final(world).names@) == tinsert(names_v(old(world).names@), e, "Bush"@),
        final(world).bushes@ == tinsert(old(world).bushes@, e, Bush {  }),
        final(world).players == old(world).players,
        final(world).backpacks == old(world).backpacks,
        final(world).pickup_queue == old(world).pickup_queue,
        final(world).craft_queue == old(world).craft_queue,
        final(world).flints == old(world).flints,
        final(world).wooden_sticks == old(world).wooden_sticks,
        final(world).roses == old(world).roses,
        final(world).axes == old(world).axes,
        final(world).fire_pits == old(world).fire_pits,
        final(world).tiers == old(world).tiers,
        final(world).blockers == old(world).blockers,
        final(world).map == old(world).map,
        final(world).log == old(world).log,
        final(world).ui == old(world).ui,
        final(world).player == old(world).player,
        final(world).pending_deletes == old(world).pending_deletes,
        final(world).pending_spawns == old(world).pending_spawns,
{
    let glyph = bracket_lib::prelude::to_cp437('%');
    let e = spawn_ground_item(
        world,
        x,
        y,
        glyph,
        Color::leaf_green(),
        Item::default(),
        "Bush",
    );
    world.bushes.insert(e, Bush {  });
    proof {
        marker_wf_proof(old(world), world, e);
    }
    e
}

pub fn wooden_stick(world: &mut World, x: i32, y: i32) -> (e: Entity)
    requires
        old(world).wf(),
        old(world).next_id < u64::MAX,
    ensures
        final(world).wf(),
        e.id == old(world).next_id,
        final(world).next_id == old(world).next_id + 1,
        final(world).positions@ == tinsert(old(world).positions@, e, Position { x, y }),
        final(world).renderables@ == tinsert(
            old(world).renderables@,
            e,
            Renderable {
                glyph: cp437_of('\\'),
                fg: Color { r: 222, g: 184, b: 135 },
                bg: Color { r: 0, g: 0, b: 0 },
            },
        ),
        final(world).items@ == tinsert(
            old(world).items@,
            e,
            Item { can_be_picked: true, can_be_crafted: false },
        ),
        names_v(final(world).names@) == tinsert(names_v(old(world).names@), e, "Wooden Stick"@),
        final(world).wooden_sticks@ == tinsert(old(world).wooden_sticks@, e, WoodenStick {  }),
        final(world).players == old(world).players,
        final(world).backpacks == old(world).backpacks,
        final(world).pickup_queue == old(world).pickup_queue,
        final(world).craft_queue == old(world).craft_queue,
        final(world).flints == old(world).flints,
        final(world).bushes == old(world).bushes,
        final(world).roses == old(world).roses,
        final(world).axes == old(world).axes,
        final(world).fire_pits == old(world).fire_pits,
        final(world).tiers == old(world).tiers,
        final(world).blockers == old(world).blockers,
        final(world).map == old(world).map,
        final(world).log == old(world).log,
        final(world).ui == old(world).ui,
        final(world).player == old(world).player,
        final(world).pending_deletes == old(world).pending_deletes,
        final(world).pending_spawns == old(world).pending_spawns,
{
    let glyph = bracket_lib::prelude::to_cp437('\\');
    let e = spawn_ground_item(
        world,
        x,
        y,
        glyph,
        Color::burlywood(),
        Item { can_be_picked: true, can_be_crafted: false },
        "Wooden Stick",
    );
    world.wooden_sticks.insert(e, WoodenStick {  });
    proof {
        marker_wf_proof(old(world), world, e);
    }
    e
}

pub fn rose(world: &mut World, x: i32, y: i32) -> (e: Entity)
    requires
        old(world).wf(),
        old(world).next_id < u64::MAX,
    ensures
        final(world).wf(),
        e.id == old(world).next_id,
        final(world).next_id == old(world).next_id + 1,
        final(world).positions@ == tinsert(old(world).positions@, e, Position { x, y }),
        final(world).renderables@ == tinsert(
            old(world).renderables@,
            e,
            Renderable {
                glyph: cp437_of('\u{00b1}'),
                fg: Color { r: 255, g: 0, b: 0 },
                bg: Color { r: 0, g: 0, b: 0 },
            },
        ),
        final(world).items@ == tinsert(
            old(world).items@,
            e,
            Item { can_be_picked: false, can_be_crafted: false },
        ),
        names_v(final(world).names@) == tinsert(names_v(old(world).names@), e, "Rose"@),
        final(world).roses@ == tinsert(old(world).roses@, e, Rose {  }),
        final(world).players == old(world).players,
        final(world).backpacks == old(world).backpacks,
        final(world).pickup_queue == old(world).pickup_queue,
        final(world).craft_queue == old(world).craft_queue,
        final(world).flints == old(world).flints,
        final(world).bushes == old(world).bushes,
        final(world).wooden_sticks == old(world).wooden_sticks,
        final(world).axes == old(world).axes,
        final(world).fire_pits == old(world).fire_pits,
        final(world).tiers == old(world).tiers,
        final(world).blockers == old(world).blockers,
        final(world).map == old(world).map,
        final(world).log == old(world).log,
        final(world).ui == old(world).ui,
        final(world).player == old(world).player,
        final(world).pending_deletes == old(world).pending_deletes,
        final(world).pending_spawns == old(world).pending_spawns,
{
    let glyph = bracket_lib::prelude::to_cp437('\u{00b1}');
    let e = spawn_ground_item(
        world,
        x,
        y,
        glyph,
        Color::red(),
        Item::default(),
        "Rose",
    );
    world.roses.insert(e, Rose {  });
    proof {
        marker_wf_proof(old(world), world, e);
    }
    e
}

/// The flags a crafted item carries.
pub fn craftable() -> (r: Item)
    ensures
        r == (Item { can_be_picked: true, can_be_crafted: true }),
{
    Item { can_be_picked: true, can_be_crafted: true }
}

/// Queue a deferred axe spawn for `owner`; it is created at the next
/// reconciliation point, directly in the owner's backpack.
pub fn axe(world: &mut World, owner: Entity, level: u8)
    requires
        level == 0,
    ensures
        final(world).pending_spawns@ == old(world).pending_spawns@.push(
            SpawnRequest::Axe { owner, level },
        ),
        final(world).positions == old(world).positions,
        final(world).renderables == old(world).renderables,
        final(world).players == old(world).players,
        final(world).names == old(world).names,
        final(world).items == old(world).items,
        final(world).flints == old(world).flints,
        final(world).bushes == old(world).bushes,
        final(world).wooden_sticks == old(world).wooden_sticks,
        final(world).roses == old(world).roses,
        final(world).axes == old(world).axes,
        final(world).fire_pits == old(world).fire_pits,
        final(world).pickup_queue == old(world).pickup_queue,
        final(world).craft_queue == old(world).craft_queue,
        final(world).backpacks == old(world).backpacks,
        final(world).tiers == old(world).tiers,
        final(world).blockers == old(world).blockers,
        final(world).map == old(world).map,
        final(world).log == old(world).log,
        final(world).ui == old(world).ui,
        final(world).player == old(world).player,
        final(world).next_id == old(world).next_id,
        final(world).pending_deletes == old(world).pending_deletes,
{
    world.spawn_deferred(SpawnRequest::Axe { owner, level });
}

/// Queue a deferred fire-pit spawn for `owner`.
pub fn fire_pit(world: &mut World, owner: Entity)
    ensures
        final(world).pending_spawns@ == old(world).pending_spawns@.push(
            SpawnRequest::FirePit { owner },
        ),
        final(world).positions == old(world).positions,
        final(world).renderables == old(world).renderables,
        final(world).players == old(world).players,
        final(world).names == old(world).names,
        final(world).items == old(world).items,
        final(world).flints == old(world).flints,
        final(world).bushes == old(world).bushes,
        final(world).wooden_sticks == old(world).wooden_sticks,
        final(world).roses == old(world).roses,
        final(world).axes == old(world).axes,
        final(world).fire_pits == old(world).fire_pits,
        final(world).pickup_queue == old(world).pickup_queue,
        final(world).craft_queue == old(world).craft_queue,
        final(world).backpacks == old(world).backpacks,
        final(world).tiers == old(world).tiers,
        final(world).blockers == old(world).blockers,
        final(world).map == old(world).map,
        final(world).log == old(world).log,
        final(world).ui == old(world).ui,
        final(world).player == old(world).player,
        final(world).next_id == old(world).next_id,
        final(world).pending_deletes == old(world).pending_deletes,
{
    world.spawn_deferred(SpawnRequest::FirePit { owner });
}


/// The item kinds the map generator scatters.
enum GroundItemKind {
    Flint,
    Bush,
    WoodenStick,
    Rose,
}

/// Entities that existed before keep all their components.
pub open spec fn preserves_old_entities(pre: &World, post: &World) -> bool {
    &&& forall|x: Entity|
        x.id < pre.next_id ==> #[trigger] tlookup(post.positions@, x) == tlookup(pre.positions@, x)
    &&& forall|x: Entity|
        x.id < pre.next_id ==> #[trigger] tlookup(post.renderables@, x) == tlookup(
            pre.renderables@,
            x,
        )
    &&& forall|x: Entity|
        x.id < pre.next_id ==> #[trigger] tlookup(post.items@, x) == tlookup(pre.items@, x)
    &&& forall|x: Entity|
        x.id < pre.next_id ==> #[trigger] tlookup(names_v(post.names@), x) == tlookup(
            names_v(pre.names@),
            x,
        )
    &&& forall|x: Entity|
        x.id < pre.next_id ==> #[trigger] tlookup(post.flints@, x) == tlookup(pre.flints@, x)
    &&& forall|x: Entity|
        x.id < pre.next_id ==> #[trigger] tlookup(post.bushes@, x) == tlookup(pre.bushes@, x)
    &&& forall|x: Entity|
        x.id < pre.next_id ==> #[trigger] tlookup(post.wooden_sticks@, x) == tlookup(
            pre.wooden_sticks@,
            x,
        )
    &&& forall|x: Entity|
        x.id < pre.next_id ==> #[trigger] tlookup(post.roses@, x) == tlookup(pre.roses@, x)
}

/// Entities created at or after `pre`'s allocation bound sit inside the
/// map border and never on the center tile, where the player starts.
pub open spec fn new_positions_interior(pre: &World, post: &World) -> bool {
    forall|x: Entity|
        #[trigger] thas(post.positions@, x) && x.id >= pre.next_id ==> {
            let p = tval(post.positions@, x);
            &&& 1 <= p.x <= WIDTH - 2
            &&& 1 <= p.y <= HEIGHT - 2
            &&& !(p.x == ((WIDTH / 2) as i32) && p.y == ((HEIGHT / 2) as i32))
        }
}

/// The parts of the world the generator leaves alone.
pub open spec fn generator_untouched(pre: &World, post: &World) -> bool {
    &&& post.players == pre.players
    &&& post.backpacks == pre.backpacks
    &&& post.pickup_queue == pre.pickup_queue
    &&& post.craft_queue == pre.craft_queue
    &&& post.axes == pre.axes
    &&& post.fire_pits == pre.fire_pits
    &&& post.tiers == pre.tiers
    &&& post.blockers == pre.blockers
    &&& post.map == pre.map
    &&& post.log == pre.log
    &&& post.ui == pre.ui
    &&& post.player == pre.player
    &&& post.pending_deletes == pre.pending_deletes
    &&& post.pending_spawns == pre.pending_spawns
}

/// Scatter one item kind over random interior tiles, one placement try per
/// `chances` map cells, skipping the map's center tile.
fn generate_item(world: &mut World, chances: usize, kind: GroundItemKind)
    requires
        old(world).wf(),
        chances >= 1,
        old(world).next_id + ((MAP_COUNT as int) / (chances as int)) <= u64::MAX,
    ensures
        final(world).wf(),
        preserves_old_entities(old(world), final(world)),
        new_positions_interior(old(world), final(world)),
        generator_untouched(old(world), final(world)),
        old(world).next_id <= final(world).next_id <= old(world).next_id + (
        (MAP_COUNT as int) / (chances as int)),
        (match kind {
            GroundItemKind::Flint => final(world).bushes == old(world).bushes && final(world).wooden_sticks == old(world).wooden_sticks && final(world).roses == old(world).roses
                && final(world).flints@.len() <= old(world).flints@.len() + (MAP_COUNT as int) / (
            chances as int),
            GroundItemKind::Bush => final(world).flints == old(world).flints && final(world).wooden_sticks == old(world).wooden_sticks && final(world).roses == old(world).roses
                && final(world).bushes@.len() <= old(world).bushes@.len() + (MAP_COUNT as int) / (
            chances as int),
            GroundItemKind::WoodenStick => final(world).flints == old(world).flints && final(world).bushes == old(world).bushes && final(world).roses == old(world).roses && final(world).wooden_sticks@.len() <= old(world).wooden_sticks@.len() + (MAP_COUNT as int) / (
            chances as int),
            GroundItemKind::Rose => final(world).flints == old(world).flints && final(world).bushes == old(world).bushes && final(world).wooden_sticks == old(world).wooden_sticks && final(world).roses@.len() <= old(world).roses@.len() + (
            MAP_COUNT as int) / (chances as int),
        }),
{
    let count = MAP_COUNT / chances;
    let mut rng = bracket_lib::random::RandomNumberGenerator::new();
    let center = xy_to_idx((WIDTH / 2) as i32, (HEIGHT / 2) as i32);
    proof {
        assert forall|xx: Entity|
            #[trigger] thas(world.positions@, xx) && xx.id >= old(world).next_id implies ({
            let p = tval(world.positions@, xx);
            &&& 1 <= p.x <= WIDTH - 2
            &&& 1 <= p.y <= HEIGHT - 2
            &&& !(p.x == ((WIDTH / 2) as i32) && p.y == ((HEIGHT / 2) as i32))
        }) by {
            lemma_bounded_fresh(world.positions@, world.next_id, xx);
        }
    }
    let mut j: usize = 0;
    while j < count
        invariant
            world.wf(),
            0 <= j <= count,
            count == (MAP_COUNT as int) / (chances as int),
            center == ((HEIGHT / 2) as int) * (WIDTH as int) + ((WIDTH / 2) as int),
            old(world).next_id + count <= u64::MAX,
            old(world).next_id <= world.next_id <= old(world).next_id + j,
            preserves_old_entities(old(world), world),
            new_positions_interior(old(world), world),
            generator_untouched(old(world), world),
            (match kind {
                GroundItemKind::Flint => world.bushes == old(world).bushes && world.wooden_sticks
                    == old(world).wooden_sticks && world.roses == old(world).roses
                    && world.flints@.len() <= old(world).flints@.len() + j,
                GroundItemKind::Bush => world.flints == old(world).flints && world.wooden_sticks
                    == old(world).wooden_sticks && world.roses == old(world).roses
                    && world.bushes@.len() <= old(world).bushes@.len() + j,
                GroundItemKind::WoodenStick => world.flints == old(world).flints && world.bushes
                    == old(world).bushes && world.roses == old(world).roses
                    && world.wooden_sticks@.len() <= old(world).wooden_sticks@.len() + j,
                GroundItemKind::Rose => world.flints == old(world).flints && world.bushes == old(world).bushes && world.wooden_sticks == old(world).wooden_sticks
                    && world.roses@.len() <= old(world).roses@.len() + j,
            }),
        decreases count - j,
    {
        let ghost pre = *world;
        let x = rng.roll_dice(1, (WIDTH - 2) as i32);
        let y = rng.roll_dice(1, (HEIGHT - 2) as i32);
        let idx = xy_to_idx(x, y);

        let is_at_center = idx == center;
        if !is_at_center {
            match kind {
                GroundItemKind::Flint => {
                    flint(world, x, y);
                    proof {
                        let e = Entity { id: pre.next_id };
                        lemma_tinsert(pre.items@, e, Item { can_be_picked: true, can_be_crafted: false });
                        lemma_tinsert(
                            pre.renderables@,
                            e,
                            Renderable {
                                glyph: cp437_of('\u{00b0}'),
                                fg: Color { r: 128, g: 128, b: 128 },
                                bg: Color { r: 0, g: 0, b: 0 },
                            },
                        );
                        lemma_tinsert(names_v(pre.names@), e, "Flint"@);
                        lemma_tinsert(pre.flints@, e, Flint {  });
                    }
                },
                GroundItemKind::Bush => {
                    bush(world, x, y);
                    proof {
                        let e = Entity { id: pre.next_id };
                        lemma_tinsert(pre.items@, e, Item { can_be_picked: false, can_be_crafted: false });
                        lemma_tinsert(
                            pre.renderables@,
                            e,
                            Renderable {
                                glyph: cp437_of('%'),
                                fg: Color { r: 0, g: 191, b: 0 },
                                bg: Color { r: 0, g: 0, b: 0 },
                            },
                        );
                        lemma_tinsert(names_v(pre.names@), e, "Bush"@);
                        lemma_tinsert(pre.bushes@, e, Bush {  });
                    }
                },
                GroundItemKind::WoodenStick => {
                    wooden_stick(world, x, y);
                    proof {
                        let e = Entity { id: pre.next_id };
                        lemma_tinsert(pre.items@, e, Item { can_be_picked: true, can_be_crafted: false });
                        lemma_tinsert(
                            pre.renderables@,
                            e,
                            Renderable {
                                glyph: cp437_of('\\'),
                                fg: Color { r: 222, g: 184, b: 135 },
                                bg: Color { r: 0, g: 0, b: 0 },
                            },
                        );
                        lemma_tinsert(names_v(pre.names@), e, "Wooden Stick"@);
                        lemma_tinsert(pre.wooden_sticks@, e, WoodenStick {  });
                    }
                },
                GroundItemKind::Rose => {
                    rose(world, x, y);
                    proof {
                        let e = Entity { id: pre.next_id };
                        lemma_tinsert(pre.items@, e, Item { can_be_picked: false, can_be_crafted: false });
                        lemma_tinsert(
                            pre.renderables@,
                            e,
                            Renderable {
                                glyph: cp437_of('\u{00b1}'),
                                fg: Color { r: 255, g: 0, b: 0 },
                                bg: Color { r: 0, g: 0, b: 0 },
                            },
                        );
                        lemma_tinsert(names_v(pre.names@), e, "Rose"@);
                        lemma_tinsert(pre.roses@, e, Rose {  });
                    }
                },
            }
            proof {
                let e = Entity { id: pre.next_id };
                lemma_tinsert(pre.positions@, e, Position { x, y });
                assert(crate::world::tsorted(names_v(pre.names@))) by {
                    assert(forall|i: int|
                        0 <= i < pre.names@.len() ==> (#[trigger] names_v(pre.names@)[i]).0
                            == pre.names@[i].0);
                }
                assert forall|xx: Entity|
                    #[trigger] thas(world.positions@, xx) && xx.id >= old(world).next_id implies ({
                    let p = tval(world.positions@, xx);
                    &&& 1 <= p.x <= WIDTH - 2
                    &&& 1 <= p.y <= HEIGHT - 2
                    &&& !(p.x == ((WIDTH / 2) as i32) && p.y == ((HEIGHT / 2) as i32))
                }) by {
                    if xx == e {
                        assert(tlookup(world.positions@, e) == Some(Position { x, y }));
                        assert(idx == y * (WIDTH as int) + x);
                        assert(center == ((HEIGHT / 2) as int) * (WIDTH as int) + ((WIDTH / 2) as int));
                    } else {
                        assert(tlookup(world.positions@, xx) == tlookup(pre.positions@, xx));
                        assert(thas(pre.positions@, xx));
                    }
                }
            }
        }
        j = j + 1;
    }
}

/// Scatter the full set of map items: bushes, wooden sticks, roses and
/// flint, each with its own density.
pub fn generate_items(world: &mut World)
    requires
        old(world).wf(),
        old(world).next_id + 280 <= u64::MAX,
    ensures
        final(world).wf(),
        preserves_old_entities(old(world), final(world)),
        new_positions_interior(old(world), final(world)),
        generator_untouched(old(world), final(world)),
        old(world).next_id <= final(world).next_id <= old(world).next_id + 280,
        final(world).bushes@.len() <= old(world).bushes@.len() + 125,
        final(world).wooden_sticks@.len() <= old(world).wooden_sticks@.len() + 62,
        final(world).roses@.len() <= old(world).roses@.len() + 62,
        final(world).flints@.len() <= old(world).flints@.len() + 31,
{
    let ghost w0 = *world;
    generate_item(world, 32, GroundItemKind::Bush);
    let ghost w1 = *world;
    generate_item(world, 64, GroundItemKind::WoodenStick);
    let ghost w2 = *world;
    generate_item(world, 64, GroundItemKind::Rose);
    let ghost w3 = *world;
    generate_item(world, 128, GroundItemKind::Flint);
    proof {
        assert forall|x: Entity| #[trigger] thas(world.positions@, x) && x.id >= w0.next_id
            implies {
            let p = tval(world.positions@, x);
            &&& 1 <= p.x <= WIDTH - 2
            &&& 1 <= p.y <= HEIGHT - 2
            &&& !(p.x == ((WIDTH / 2) as i32) && p.y == ((HEIGHT / 2) as i32))
        } by {
            if x.id >= w3.next_id {
                assert(thas(world.positions@, x) && x.id >= w3.next_id);
            } else if x.id >= w2.next_id {
                assert(tlookup(world.positions@, x) == tlookup(w3.positions@, x));
                assert(thas(w3.positions@, x) && x.id >= w2.next_id);
                assert(tval(world.positions@, x) == tval(w3.positions@, x));
            } else if x.id >= w1.next_id {
                assert(tlookup(world.positions@, x) == tlookup(w3.positions@, x));
                assert(tlookup(w3.positions@, x) == tlookup(w2.positions@, x));
                assert(thas(w2.positions@, x) && x.id >= w1.next_id);
                assert(tval(world.positions@, x) == tval(w2.positions@, x));
            } else {
                assert(tlookup(world.positions@, x) == tlookup(w3.positions@, x));
                assert(tlookup(w3.positions@, x) == tlookup(w2.positions@, x));
                assert(tlookup(w2.positions@, x) == tlookup(w1.positions@, x));
                assert(thas(w1.positions@, x) && x.id >= w0.next_id);
                assert(tval(world.positions@, x) == tval(w1.positions@, x));
            }
        }
    }
}
} // verus!
