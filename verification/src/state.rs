//! The frame driver's state: the world, the per-tick system sequence, and
//! the reconciliation points between systems.
use vstd::prelude::*;

use crate::components::items::{CraftQueue, PickupQueue};
use crate::draw::{DrawOp, DrawOpView, ops_view};
use crate::gui::MenuMode;
use crate::logs::log_v;
use crate::systems::craft::{CraftSystem, craft_stage};
use crate::systems::pickup::{PickupSystem, pickup_stage};
use crate::world::{
    Entity, SpawnRequest, World, WorldStage, crafts_v, maintain_stage, names_v, stage_of, thas,
    tiers_v, tval,
};

verus! {

pub struct State {
    pub world: World,
}

impl Default for State {
    /// A fresh state around a fresh world: no entities, an empty log, a
    /// generated map, both panels shown, both modes at their defaults and
    /// the first craft option selected.
    fn default() -> (s: State)
        ensures
            s.world.wf(),
            s.world.next_id == 1,
            s.world.player == (Entity { id: 0 }),
            s.world.positions@.len() == 0,
            s.world.renderables@.len() == 0,
            s.world.players@.len() == 0,
            s.world.names@.len() == 0,
            s.world.items@.len() == 0,
            s.world.backpacks@.len() == 0,
            s.world.blockers@.len() == 0,
            s.world.pickup_queue@.len() == 0,
            s.world.craft_queue@.len() == 0,
            s.world.pending_deletes@.len() == 0,
            s.world.pending_spawns@.len() == 0,
            s.world.log.entries@.len() == 0,
            crate::map::is_generated_map(s.world.map@),
            s.world.ui == (crate::gui::UserInterfaceState {
                log: true,
                menu: true,
                menu_mode: MenuMode::Default,
                control_mode: crate::player::ControlMode::Default,
                selected_option: 0,
            }),
    {
        State { world: World::new() }
    }
}

/// Observable component state, compared up to views: every table, the
/// resources, and the allocation bound.
pub open spec fn same_component_state(a: &World, b: &World) -> bool {
    &&& a.next_id == b.next_id
    &&& a.positions@ == b.positions@
    &&& a.renderables@ == b.renderables@
    &&& a.players@ == b.players@
    &&& names_v(a.names@) == names_v(b.names@)
    &&& a.items@ == b.items@
    &&& a.flints@ == b.flints@
    &&& a.bushes@ == b.bushes@
    &&& a.wooden_sticks@ == b.wooden_sticks@
    &&& a.roses@ == b.roses@
    &&& a.axes@ == b.axes@
    &&& a.fire_pits@ == b.fire_pits@
    &&& a.pickup_queue@ == b.pickup_queue@
    &&& crafts_v(a.craft_queue@) == crafts_v(b.craft_queue@)
    &&& a.backpacks@ == b.backpacks@
    &&& tiers_v(a.tiers@) == tiers_v(b.tiers@)
    &&& a.blockers@ == b.blockers@
    &&& a.map@ == b.map@
    &&& log_v(a.log.entries@) == log_v(b.log.entries@)
    &&& a.ui == b.ui
    &&& a.player == b.player
    &&& a.pending_deletes@ == b.pending_deletes@
    &&& a.pending_spawns@ == b.pending_spawns@
}

impl State {
    /// One system pass: Pickup, reconcile, Craft, reconcile. The final
    /// stage is exactly that composition of the four stage functions; in
    /// particular every intent is consumed, every deferred creation or
    /// deletion is applied, and the pass ends with empty queues. A pass
    /// over a world with no pending intents and no deferred work changes
    /// nothing.
    pub fn run_systems(&mut self)
        requires
            old(self).world.wf(),
            old(self).world.next_id + old(self).world.pending_spawns@.len() + 1 <= u64::MAX,
        ensures
            final(self).world.wf(),
            stage_of(&final(self).world) == maintain_stage(
                craft_stage(maintain_stage(pickup_stage(stage_of(&old(self).world)))),
            ),
            final(self).world.pickup_queue@ == Seq::<(Entity, PickupQueue)>::empty(),
            final(self).world.craft_queue@ == Seq::<(Entity, CraftQueue)>::empty(),
            final(self).world.pending_deletes@ == Seq::<Entity>::empty(),
            final(self).world.pending_spawns@ == Seq::<SpawnRequest>::empty(),
            final(self).world.ui == old(self).world.ui,
            final(self).world.map == old(self).world.map,
            final(self).world.player == old(self).world.player,
            old(self).world.pickup_queue@.len() == 0 && old(self).world.craft_queue@.len() == 0
                && old(self).world.pending_deletes@.len() == 0
                && old(self).world.pending_spawns@.len() == 0 ==> same_component_state(
                &old(self).world,
                &final(self).world,
            ),
    {
        let ghost w0 = self.world;
        let mut pickup = PickupSystem {  };
        pickup.run(&mut self.world);
        let ghost w1 = self.world;
        self.world.maintain();
        let ghost w2 = self.world;

        let mut craft = CraftSystem {  };
        craft.run(&mut self.world);
        let ghost w3 = self.world;

        self.world.maintain();
        proof {
            let s0 = stage_of(&w0);
            assert(stage_of(&w1) =~~= pickup_stage(s0));
            assert(stage_of(&w2) =~~= maintain_stage(stage_of(&w1)));
            assert(stage_of(&w3) =~~= craft_stage(stage_of(&w2)));
            assert(stage_of(&self.world) =~~= maintain_stage(stage_of(&w3)));
            crate::world::lemma_tremove_all_empty::<PickupQueue>(w1.pending_deletes@);
            assert(w3.pickup_queue@ =~= Seq::<(Entity, PickupQueue)>::empty());
            crate::world::lemma_tremove_all_empty::<PickupQueue>(w3.pending_deletes@);
            assert(crafts_v(w3.craft_queue@) =~= Seq::<(Entity, Seq<char>)>::empty());
            crate::world::lemma_tremove_all_empty::<Seq<char>>(w3.pending_deletes@);
            assert(crafts_v(self.world.craft_queue@).len() == 0);
            assert(self.world.craft_queue@ =~= Seq::<(Entity, CraftQueue)>::empty());
            if w0.pickup_queue@.len() == 0 && w0.craft_queue@.len() == 0
                && w0.pending_deletes@.len() == 0 && w0.pending_spawns@.len() == 0 {
                let dels = Seq::<Entity>::empty();
                let spawns = Seq::<SpawnRequest>::empty();
                assert(w0.pickup_queue@ =~= Seq::<(Entity, PickupQueue)>::empty());
                assert(w0.craft_queue@ =~= Seq::<(Entity, CraftQueue)>::empty());
                assert(w0.pending_deletes@ =~= dels);
                assert(w0.pending_spawns@ =~= spawns);
                assert(w1.pending_deletes@ =~= dels);
                assert(w1.pending_spawns@ =~= spawns);
                assert(w2.pickup_queue@ =~= w0.pickup_queue@);
                assert(crafts_v(w0.craft_queue@) =~= crafts_v(w2.craft_queue@));
                assert(w3.pending_deletes@ =~= dels);
                assert(w3.pending_spawns@ =~= spawns);
                assert(w1.positions@ == w0.positions@);
                assert(log_v(w1.log.entries@) == log_v(w0.log.entries@));
                assert(crate::world::tremove_all(w1.positions@, dels) == w1.positions@);
                assert(crate::world::spawn_items_from(
                    crate::world::tremove_all(w1.items@, dels),
                    spawns,
                    w1.next_id as int,
                ) == w1.items@);
                assert(crate::world::spawn_names_from(
                    crate::world::tremove_all(names_v(w1.names@), dels),
                    spawns,
                    w1.next_id as int,
                ) == names_v(w1.names@));
                assert(crate::world::spawn_backpacks_from(
                    crate::world::tremove_all(w1.backpacks@, dels),
                    spawns,
                    w1.next_id as int,
                ) == w1.backpacks@);
                assert(crate::world::spawn_axes_from(
                    crate::world::tremove_all(w1.axes@, dels),
                    spawns,
                    w1.next_id as int,
                ) == w1.axes@);
                assert(crate::world::spawn_fire_pits_from(
                    crate::world::tremove_all(w1.fire_pits@, dels),
                    spawns,
                    w1.next_id as int,
                ) == w1.fire_pits@);
                assert(crate::world::spawn_tiers_from(
                    crate::world::tremove_all(tiers_v(w1.tiers@), dels),
                    spawns,
                    w1.next_id as int,
                ) == tiers_v(w1.tiers@));
                assert(same_component_state(&w0, &w2));
                assert(w3 == w2);
                assert(crate::world::spawn_items_from(
                    crate::world::tremove_all(w3.items@, dels),
                    spawns,
                    w3.next_id as int,
                ) == w3.items@);
                assert(crate::world::spawn_names_from(
                    crate::world::tremove_all(names_v(w3.names@), dels),
                    spawns,
                    w3.next_id as int,
                ) == names_v(w3.names@));
                assert(crate::world::spawn_backpacks_from(
                    crate::world::tremove_all(w3.backpacks@, dels),
                    spawns,
                    w3.next_id as int,
                ) == w3.backpacks@);
                assert(crate::world::spawn_axes_from(
                    crate::world::tremove_all(w3.axes@, dels),
                    spawns,
                    w3.next_id as int,
                ) == w3.axes@);
                assert(crate::world::spawn_fire_pits_from(
                    crate::world::tremove_all(w3.fire_pits@, dels),
                    spawns,
                    w3.next_id as int,
                ) == w3.fire_pits@);
                assert(crate::world::spawn_tiers_from(
                    crate::world::tremove_all(tiers_v(w3.tiers@), dels),
                    spawns,
                    w3.next_id as int,
                ) == tiers_v(w3.tiers@));
                assert(same_component_state(&w0, &self.world));
            }
        }
    }
}


/// The glyph cell of one positioned, renderable entity.
pub open spec fn render_cell(p: crate::Position, r: crate::Renderable) -> DrawOpView {
    DrawOpView::Cell { x: p.x, y: p.y, fg: r.fg, bg: r.bg, glyph: r.glyph }
}

/// The cells of every named, renderable entity except the one named
/// "Player", in table order.
pub open spec fn nonplayer_entity_ops(
    pos: Seq<(Entity, crate::Position)>,
    rend: Seq<(Entity, crate::Renderable)>,
    names: Seq<(Entity, Seq<char>)>,
) -> Seq<DrawOpView>
    decreases pos.len(),
{
    if pos.len() == 0 {
        Seq::empty()
    } else {
        let pair = pos[0];
        let rest = nonplayer_entity_ops(pos.drop_first(), rend, names);
        if thas(rend, pair.0) && thas(names, pair.0) && tval(names, pair.0) != "Player"@ {
            seq![render_cell(pair.1, tval(rend, pair.0))] + rest
        } else {
            rest
        }
    }
}

/// The cells of every player-marked, renderable entity, drawn last so the
/// player is never occluded.
pub open spec fn player_entity_ops(
    pos: Seq<(Entity, crate::Position)>,
    rend: Seq<(Entity, crate::Renderable)>,
    players: Seq<(Entity, crate::player::Player)>,
) -> Seq<DrawOpView>
    decreases pos.len(),
{
    if pos.len() == 0 {
        Seq::empty()
    } else {
        let pair = pos[0];
        let rest = player_entity_ops(pos.drop_first(), rend, players);
        if thas(rend, pair.0) && thas(players, pair.0) {
            seq![render_cell(pair.1, tval(rend, pair.0))] + rest
        } else {
            rest
        }
    }
}

/// Draw every entity: named non-player entities first, player entities
/// last.
fn draw_entities(world: &World, frame: &mut Vec<DrawOp>)
    requires
        world.wf(),
    ensures
        ops_view(final(frame)@) == ops_view(old(frame)@) + nonplayer_entity_ops(
            world.positions@,
            world.renderables@,
            names_v(world.names@),
        ) + player_entity_ops(world.positions@, world.renderables@, world.players@),
{
    let ghost gpos = world.positions@;
    let ghost grend = world.renderables@;
    let ghost gnames = names_v(world.names@);
    let ghost gplayers = world.players@;
    let player_name: String = "Player".to_owned();

    proof {
        assert(gpos.skip(0) =~= gpos);
    }
    let mut i: usize = 0;
    while i < world.positions.len()
        invariant
            world.wf(),
            0 <= i <= gpos.len(),
            gpos == world.positions@,
            grend == world.renderables@,
            gnames == names_v(world.names@),
            gplayers == world.players@,
            player_name@ == "Player"@,
            ops_view(frame@) + nonplayer_entity_ops(gpos.skip(i as int), grend, gnames)
                == ops_view(old(frame)@) + nonplayer_entity_ops(gpos, grend, gnames),
        decreases gpos.len() - i,
    {
        proof {
            assert(gpos.skip(i as int)[0] == gpos[i as int]);
            assert(gpos.skip(i as int).drop_first() =~= gpos.skip(i as int + 1));
        }
        let e = world.positions.key_at(i);
        let p = *world.positions.val_at(i);
        match world.renderables.get(e) {
            Some(r) => {
                match world.names.get(e) {
                    Some(nm) => {
                        proof {
                            crate::world::lemma_vmap_tlookup(
                                world.names@,
                                |na: crate::Name| na.name@,
                                e,
                            );
                        }
                        if !nm.name.eq(&player_name) {
                            let ghost pre_ops = ops_view(frame@);
                            frame.push(
                                DrawOp::Cell { x: p.x, y: p.y, fg: r.fg, bg: r.bg, glyph: r.glyph },
                            );
                            proof {
                                assert(ops_view(frame@) =~= pre_ops.push(
                                    render_cell(p, tval(grend, e)),
                                ));
                                assert((pre_ops.push(render_cell(p, tval(grend, e)))) + (
                                nonplayer_entity_ops(gpos.skip(i as int + 1), grend, gnames)) =~= (
                                pre_ops + (seq![render_cell(p, tval(grend, e))]
                                    + nonplayer_entity_ops(gpos.skip(i as int + 1), grend, gnames))));
                            }
                        }
                    },
                    None => {
                        proof {
                            crate::world::lemma_vmap_tlookup(
                                world.names@,
                                |na: crate::Name| na.name@,
                                e,
                            );
                        }
                    },
                }
            },
            None => {},
        }
        i = i + 1;
    }
    proof {
        assert(gpos.skip(gpos.len() as int) =~= Seq::<(Entity, crate::Position)>::empty());
    }

    let ghost mid = ops_view(frame@);
    let mut k: usize = 0;
    while k < world.positions.len()
        invariant
            world.wf(),
            0 <= k <= gpos.len(),
            gpos == world.positions@,
            grend == world.renderables@,
            gplayers == world.players@,
            ops_view(frame@) + player_entity_ops(gpos.skip(k as int), grend, gplayers) == mid
                + player_entity_ops(gpos, grend, gplayers),
        decreases gpos.len() - k,
    {
        proof {
            assert(gpos.skip(k as int)[0] == gpos[k as int]);
            assert(gpos.skip(k as int).drop_first() =~= gpos.skip(k as int + 1));
        }
        let e = world.positions.key_at(k);
        let p = *world.positions.val_at(k);
        match world.renderables.get(e) {
            Some(r) => {
                if world.players.contains(e) {
                    let ghost pre_ops = ops_view(frame@);
                    frame.push(
                        DrawOp::Cell { x: p.x, y: p.y, fg: r.fg, bg: r.bg, glyph: r.glyph },
                    );
                    proof {
                        assert(ops_view(frame@) =~= pre_ops.push(render_cell(p, tval(grend, e))));
                        assert((pre_ops.push(render_cell(p, tval(grend, e)))) + (player_entity_ops(
                            gpos.skip(k as int + 1),
                            grend,
                            gplayers,
                        )) =~= (pre_ops + (seq![render_cell(p, tval(grend, e))] + player_entity_ops(
                            gpos.skip(k as int + 1),
                            grend,
                            gplayers,
                        ))));
                    }
                }
            },
            None => {},
        }
        k = k + 1;
    }
    proof {
        assert(gpos.skip(gpos.len() as int) =~= Seq::<(Entity, crate::Position)>::empty());
        assert(ops_view(frame@) =~= ops_view(old(frame)@) + nonplayer_entity_ops(
            gpos,
            grend,
            gnames,
        ) + player_entity_ops(gpos, grend, gplayers));
    }
}

/// The menu-mode panel of one frame: the inventory or craft view when one
/// of them is open. An inventory too large for the screen's coordinate
/// space draws nothing.
pub open spec fn mode_panel_ops(w: &World) -> Seq<DrawOpView> {
    match w.ui.menu_mode {
        MenuMode::Inventory => if w.backpacks@.len() + 4 <= i32::MAX {
            crate::gui::menu::inventory_ops(w.backpacks@, names_v(w.names@), w.player)
        } else {
            Seq::empty()
        },
        MenuMode::Craft => crate::gui::menu::craft_ops(
            w.backpacks@,
            names_v(w.names@),
            w.player,
            w.ui.selected_option as int,
        ),
        _ => Seq::empty(),
    }
}

impl State {
    /// One simulation tick: run the systems with their reconciliation
    /// points, dispatch the key to the active control mode, and emit the
    /// frame: the map, the entities (player last), the open menu panel,
    /// the log panel and the side menu. Returns whether the player quit.
    pub fn tick(&mut self, key: Option<crate::player::Key>, frame: &mut Vec<DrawOp>) -> (quit:
        bool)
        requires
            old(self).world.wf(),
            old(self).world.next_id + old(self).world.pending_spawns@.len() + 1 <= u64::MAX,
        ensures
            final(self).world.wf(),
            quit == crate::player::spec_quits(old(self).world.ui.control_mode, key),
            final(self).world.ui == crate::player::spec_handle_ui(
                old(self).world.ui,
                old(self).world.ui.control_mode,
                key,
            ),
            crate::player::input_stage_effect(
                maintain_stage(craft_stage(maintain_stage(pickup_stage(stage_of(&old(self).world))))),
                stage_of(&final(self).world),
                old(self).world.ui.control_mode,
                key,
            ),
            ops_view(final(frame)@) == ops_view(old(frame)@) + crate::map::map_draw_ops(
                final(self).world.map@,
            ) + nonplayer_entity_ops(
                final(self).world.positions@,
                final(self).world.renderables@,
                names_v(final(self).world.names@),
            ) + player_entity_ops(
                final(self).world.positions@,
                final(self).world.renderables@,
                final(self).world.players@,
            ) + mode_panel_ops(&final(self).world) + crate::gui::log_panel_ops(
                log_v(final(self).world.log.entries@),
                final(self).world.ui.log,
            ) + crate::gui::menu::menu_panel_ops(&final(self).world),
    {
        self.run_systems();
        let ghost wmid = self.world;
        let control_mode = self.world.ui.control_mode;
        let quit = control_mode.handle_input(self, key);
        proof {
            assert(crate::player::input_stage_effect(
                maintain_stage(
                    craft_stage(maintain_stage(pickup_stage(stage_of(&old(self).world)))),
                ),
                stage_of(&self.world),
                old(self).world.ui.control_mode,
                key,
            ));
        }

        crate::map::draw_map(&self.world.map, frame);
        draw_entities(&self.world, frame);

        match self.world.ui.menu_mode {
            MenuMode::Inventory => {
                if self.world.backpacks.len() <= (i32::MAX as usize) - 4 {
                    crate::gui::menu::show_inventory(self, frame);
                }
            },
            MenuMode::Craft => {
                crate::gui::menu::show_craft(self, frame);
            },
            _ => {},
        }

        crate::gui::draw_log(&self.world, frame);
        crate::gui::menu::draw_menu(&self.world, frame);
        quit
    }
}

} // verus!
