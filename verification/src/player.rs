//! The player marker, movement, and per-mode input handling.
use vstd::prelude::*;

use crate::components::items::BlocksMovement;
use crate::gui::MenuMode;
use crate::gui::UserInterfaceState;
use crate::map::{HEIGHT, TileType, WIDTH, is_tile_walkable, xy_to_idx};
use crate::state::State;
use crate::world::{
    Entity, World, lemma_tinsert, lemma_tinsert_bounded, lemma_tlookup_at, lemma_tlookup_witness,
    thas, tinsert, tlookup, tval,
};

verus! {

/// Marks the player entity.
#[derive(Copy, Clone, PartialEq, Eq, Structural, Debug)]
pub struct Player {}

/// Which set of key bindings is active.
#[derive(Copy, Clone, PartialEq, Eq, Structural, Debug)]
pub enum ControlMode {
    Default,
    Inventory,
    Craft,
}

/// The keys the game reacts to, as plain values; the shell decodes the
/// terminal's key codes into these.
#[derive(Copy, Clone, PartialEq, Eq, Structural, Debug)]
pub enum Key {
    H,
    J,
    K,
    L,
    Y,
    U,
    B,
    N,
    Left,
    Right,
    Up,
    Down,
    Comma,
    G,
    Apostrophe,
    Grave,
    Tab,
    O,
    E,
    C,
    I,
    Q,
    Escape,
    Return,
    Space,
}


/// The first entity that carries both the player marker and a position.
pub open spec fn first_player(
    players: Seq<(Entity, Player)>,
    positions: Seq<(Entity, crate::Position)>,
) -> Option<Entity>
    decreases players.len(),
{
    if players.len() == 0 {
        None
    } else if thas(positions, players[0].0) {
        Some(players[0].0)
    } else {
        first_player(players.drop_first(), positions)
    }
}

/// Whether some blocker entity occupies the tile `(x, y)`.
pub open spec fn blocked_at(
    positions: Seq<(Entity, crate::Position)>,
    blockers: Seq<(Entity, BlocksMovement)>,
    x: int,
    y: int,
) -> bool {
    exists|e: Entity|
        #[trigger] thas(blockers, e) && thas(positions, e) && tval(positions, e) == (
        crate::Position { x: x as i32, y: y as i32 })
}

/// Whether the player may step onto `(nx, ny)`: inside the map, onto a
/// walkable tile, and not onto a blocker entity's tile.
pub open spec fn move_allowed(
    m: Seq<TileType>,
    positions: Seq<(Entity, crate::Position)>,
    blockers: Seq<(Entity, BlocksMovement)>,
    nx: int,
    ny: int,
) -> bool {
    &&& 0 <= nx < WIDTH
    &&& 0 <= ny < HEIGHT
    &&& m[ny * (WIDTH as int) + nx] != TileType::Wall
    &&& !blocked_at(positions, blockers, nx, ny)
}

/// What a movement attempt by `(dx, dy)` does to the position table: a
/// move onto a wall tile or a blocker's tile leaves the player position
/// unchanged; an allowed move applies exactly the requested delta. A world
/// without a positioned player is left untouched.
pub open spec fn move_effect(
    players: Seq<(Entity, Player)>,
    positions: Seq<(Entity, crate::Position)>,
    m: Seq<TileType>,
    blockers: Seq<(Entity, BlocksMovement)>,
    post_positions: Seq<(Entity, crate::Position)>,
    dx: int,
    dy: int,
) -> bool {
    match first_player(players, positions) {
        None => post_positions == positions,
        Some(pe) => {
            let p = tval(positions, pe);
            let nx = p.x as int + dx;
            let ny = p.y as int + dy;
            if move_allowed(m, positions, blockers, nx, ny) {
                post_positions == tinsert(
                    positions,
                    pe,
                    crate::Position { x: nx as i32, y: ny as i32 },
                )
            } else {
                post_positions == positions
            }
        },
    }
}

/// Move the player by the requested delta. Walls and blocker entities
/// leave the position unchanged; an allowed move applies exactly the
/// delta, clamped to the screen. A world without a positioned player is
/// left untouched.
pub fn try_move_player(delta_x: i32, delta_y: i32, world: &mut World)
    requires
        old(world).wf(),
    ensures
        final(world).wf(),
        move_effect(
            old(world).players@,
            old(world).positions@,
            old(world).map@,
            old(world).blockers@,
            final(world).positions@,
            delta_x as int,
            delta_y as int,
        ),
        final(world).renderables == old(world).renderables,
        final(world).players == old(world).players,
        final(world).names == old(world).names,
        final(world).items == old(world).items,
        final(world).flints == old(world).flints,
        final(world).bushes == old(world).bushes,
        final(world).wooden_sticks == old(world).wooden_sticks,
        final(world).roses == old(world).roses,
        final(world).axes == old(world).axes,
        final(world).fire_pits == old(world).fire_pits,
        final(world).pickup_queue == old(world).pickup_queue,
        final(world).craft_queue == old(world).craft_queue,
        final(world).backpacks == old(world).backpacks,
        final(world).tiers == old(world).tiers,
        final(world).blockers == old(world).blockers,
        final(world).map == old(world).map,
        final(world).log == old(world).log,
        final(world).ui == old(world).ui,
        final(world).player == old(world).player,
        final(world).next_id == old(world).next_id,
        final(world).pending_deletes == old(world).pending_deletes,
        final(world).pending_spawns == old(world).pending_spawns,
{
    let ghost gplayers = world.players@;
    let ghost gpositions = world.positions@;
    proof {
        assert(gplayers.skip(0) =~= gplayers);
    }
    let mut found: Option<Entity> = None;
    let mut player_x: i32 = 0;
    let mut player_y: i32 = 0;
    let mut i: usize = 0;
    while i < world.players.len() && found.is_none()
        invariant
            world.wf(),
            0 <= i <= gplayers.len(),
            gplayers == world.players@,
            gpositions == world.positions@,
            found is None ==> first_player(gplayers, gpositions) == first_player(
                gplayers.skip(i as int),
                gpositions,
            ),
            found matches Some(pe) ==> first_player(gplayers, gpositions) == Some(pe) && thas(
                gpositions,
                pe,
            ) && tval(gpositions, pe) == (crate::Position { x: player_x, y: player_y }),
        decreases gplayers.len() - i, (if found is None { 1int } else { 0int }),
    {
        proof {
            assert(gplayers.skip(i as int)[0] == gplayers[i as int]);
            assert(gplayers.skip(i as int).drop_first() =~= gplayers.skip(i as int + 1));
        }
        let e = world.players.key_at(i);
        match world.positions.get(e) {
            Some(p) => {
                found = Some(e);
                player_x = p.x;
                player_y = p.y;
            },
            None => {
                i = i + 1;
            },
        }
    }
    proof {
        if i == gplayers.len() {
            assert(gplayers.skip(gplayers.len() as int) =~= Seq::<(Entity, Player)>::empty());
        }
    }

    let pe = match found {
        Some(pe) => pe,
        None => {
            return ;
        },
    };

    let nx64: i64 = player_x as i64 + delta_x as i64;
    let ny64: i64 = player_y as i64 + delta_y as i64;
    if !(0 <= nx64 && nx64 < WIDTH as i64 && 0 <= ny64 && ny64 < HEIGHT as i64) {
        return ;
    }
    let nx: i32 = nx64 as i32;
    let ny: i32 = ny64 as i32;

    let destination_idx = xy_to_idx(nx, ny);
    let tile = world.map[destination_idx];
    let walkable = is_tile_walkable(tile);

    let ghost gblockers = world.blockers@;
    let mut is_blocked = false;
    let mut b: usize = 0;
    while b < world.blockers.len()
        invariant
            world.wf(),
            0 <= b <= gblockers.len(),
            gblockers == world.blockers@,
            gpositions == world.positions@,
            is_blocked ==> blocked_at(gpositions, gblockers, nx as int, ny as int),
            !is_blocked ==> forall|l: int|
                0 <= l < b ==> !(thas(gpositions, (#[trigger] gblockers[l]).0) && tval(
                    gpositions,
                    gblockers[l].0,
                ) == (crate::Position { x: nx, y: ny })),
        decreases gblockers.len() - b,
    {
        let e = world.blockers.key_at(b);
        match world.positions.get(e) {
            Some(p) => {
                if p.x == nx && p.y == ny {
                    is_blocked = true;
                    proof {
                        lemma_tlookup_at(gblockers, b as int);
                        assert(thas(gblockers, e));
                    }
                }
            },
            None => {},
        }
        b = b + 1;
    }
    proof {
        if !is_blocked {
            assert(!blocked_at(gpositions, gblockers, nx as int, ny as int)) by {
                if blocked_at(gpositions, gblockers, nx as int, ny as int) {
                    let e = choose|e: Entity|
                        #[trigger] thas(gblockers, e) && thas(gpositions, e) && tval(
                            gpositions,
                            e,
                        ) == (crate::Position { x: nx, y: ny });
                    lemma_tlookup_witness(gblockers, e);
                }
            }
        }
    }

    if walkable && !is_blocked {
        let fx: i32 = if nx > (WIDTH - 1) as i32 {
            (WIDTH - 1) as i32
        } else if nx < 0 {
            0
        } else {
            nx
        };
        let fy: i32 = if ny > (HEIGHT - 1) as i32 {
            (HEIGHT - 1) as i32
        } else if ny < 0 {
            0
        } else {
            ny
        };
        let ghost pre = *world;
        world.positions.insert(pe, crate::Position { x: fx, y: fy });
        proof {
            lemma_tinsert(pre.positions@, pe, crate::Position { x: fx, y: fy });
            lemma_tlookup_witness(pre.positions@, pe);
            lemma_tinsert_bounded(
                pre.positions@,
                pe,
                crate::Position { x: fx, y: fy },
                pre.next_id,
            );
            assert forall|x: Entity| #[trigger] thas(world.items@, x) implies (thas(
                world.positions@,
                x,
            ) != thas(world.backpacks@, x)) by {
                if x == pe {
                    assert(thas(world.positions@, pe));
                    assert(thas(pre.positions@, pe));
                } else {
                    assert(tlookup(world.positions@, x) == tlookup(pre.positions@, x));
                }
            }
        }
    }
}


/// The user-interface transition of one key in one control mode: panel
/// toggles, the Default/Inventory and Default/Craft mode toggles (each
/// re-entrant), leaving any non-default mode with Escape or Q, and moving
/// the craft selection.
pub open spec fn spec_handle_ui(
    ui: UserInterfaceState,
    mode: ControlMode,
    key: Option<Key>,
) -> UserInterfaceState {
    match mode {
        ControlMode::Default => match key {
            Some(Key::Apostrophe) | Some(Key::Grave) => UserInterfaceState { log: !ui.log, ..ui },
            Some(Key::Tab) => UserInterfaceState { menu: !ui.menu, ..ui },
            Some(Key::E) => UserInterfaceState {
                menu_mode: if ui.menu_mode == MenuMode::Inventory {
                    MenuMode::Default
                } else {
                    MenuMode::Inventory
                },
                control_mode: if ui.control_mode == ControlMode::Inventory {
                    ControlMode::Default
                } else {
                    ControlMode::Inventory
                },
                ..ui
            },
            Some(Key::C) => UserInterfaceState {
                menu_mode: if ui.menu_mode == MenuMode::Craft {
                    MenuMode::Default
                } else {
                    MenuMode::Craft
                },
                control_mode: if ui.control_mode == ControlMode::Craft {
                    ControlMode::Default
                } else {
                    ControlMode::Craft
                },
                selected_option: 0,
                ..ui
            },
            Some(Key::I) => UserInterfaceState {
                menu_mode: if ui.menu_mode == MenuMode::Interact {
                    MenuMode::Default
                } else {
                    MenuMode::Interact
                },
                ..ui
            },
            _ => ui,
        },
        ControlMode::Inventory => match key {
            Some(Key::Escape) | Some(Key::Q) => UserInterfaceState {
                control_mode: ControlMode::Default,
                menu_mode: MenuMode::Default,
                ..ui
            },
            _ => ui,
        },
        ControlMode::Craft => match key {
            Some(Key::Escape) | Some(Key::Q) => UserInterfaceState {
                control_mode: ControlMode::Default,
                menu_mode: MenuMode::Default,
                ..ui
            },
            Some(Key::J) | Some(Key::Down) => if ui.selected_option + 2
                > crate::systems::craft::RECIPE_COUNT {
                ui
            } else {
                UserInterfaceState { selected_option: (ui.selected_option + 1) as usize, ..ui }
            },
            Some(Key::K) | Some(Key::Up) => if ui.selected_option == 0 {
                ui
            } else {
                UserInterfaceState { selected_option: (ui.selected_option - 1) as usize, ..ui }
            },
            _ => ui,
        },
    }
}

/// Whether the key ends the game: only the default mode quits on Q or
/// Escape; in the menu modes those keys return to the default mode.
pub open spec fn spec_quits(mode: ControlMode, key: Option<Key>) -> bool {
    mode == ControlMode::Default && (key == Some(Key::Q) || key == Some(Key::Escape))
}

/// The movement delta of a key in the default mode, if it is a movement
/// key.
pub open spec fn move_delta(key: Key) -> Option<(int, int)> {
    match key {
        Key::H | Key::Left => Some((-1int, 0int)),
        Key::L | Key::Right => Some((1int, 0int)),
        Key::K | Key::Up => Some((0int, -1int)),
        Key::J | Key::Down => Some((0int, 1int)),
        Key::Y => Some((-1int, -1int)),
        Key::U => Some((1int, -1int)),
        Key::B => Some((-1int, 1int)),
        Key::N => Some((1int, 1int)),
        _ => None,
    }
}

/// What one input dispatch does, as a relation between the stage before
/// and after: the user-interface state follows `spec_handle_ui`; only the
/// default mode moves the player, takes items or writes the log; only the
/// craft mode confirms a craft; every other part of the world is left
/// alone.
pub open spec fn input_stage_effect(
    pre: crate::world::WorldStage,
    post: crate::world::WorldStage,
    mode: ControlMode,
    key: Option<Key>,
) -> bool {
    &&& post.ui == spec_handle_ui(pre.ui, mode, key)
    &&& post.next_id == pre.next_id
    &&& post.renderables == pre.renderables
    &&& post.players == pre.players
    &&& post.names == pre.names
    &&& post.items == pre.items
    &&& post.flints == pre.flints
    &&& post.bushes == pre.bushes
    &&& post.wooden_sticks == pre.wooden_sticks
    &&& post.roses == pre.roses
    &&& post.axes == pre.axes
    &&& post.fire_pits == pre.fire_pits
    &&& post.backpacks == pre.backpacks
    &&& post.tiers == pre.tiers
    &&& post.blockers == pre.blockers
    &&& post.map == pre.map
    &&& post.player == pre.player
    &&& post.pending_deletes == pre.pending_deletes
    &&& post.pending_spawns == pre.pending_spawns
    &&& (match (mode, key) {
        (ControlMode::Default, Some(k)) => match move_delta(k) {
            Some(d) => move_effect(
                pre.players,
                pre.positions,
                pre.map,
                pre.blockers,
                post.positions,
                d.0,
                d.1,
            ) && post.log == pre.log && post.pickup_queue == pre.pickup_queue && post.craft_queue
                == pre.craft_queue,
            None => if k == Key::Comma || k == Key::G {
                crate::components::items::take_effect(
                    pre.players,
                    pre.positions,
                    pre.items,
                    pre.player,
                    pre.log,
                    pre.pickup_queue,
                    post.log,
                    post.pickup_queue,
                ) && post.positions == pre.positions && post.craft_queue == pre.craft_queue
            } else if k == Key::O {
                post.log == crate::logs::spec_log(pre.log, "there are no options yet"@)
                    && post.positions == pre.positions && post.pickup_queue == pre.pickup_queue
                    && post.craft_queue == pre.craft_queue
            } else {
                post.positions == pre.positions && post.log == pre.log && post.pickup_queue
                    == pre.pickup_queue && post.craft_queue == pre.craft_queue
            },
        },
        (ControlMode::Craft, Some(k)) => post.positions == pre.positions && post.log == pre.log
            && post.pickup_queue == pre.pickup_queue && (if k == Key::Return || k == Key::Space {
            post.craft_queue == crate::gui::menu::fill_craft_intents(
                pre.craft_queue,
                pre.items,
                crate::systems::craft::spec_recipes()[pre.ui.selected_option as int].result,
            )
        } else {
            post.craft_queue == pre.craft_queue
        }),
        _ => post.positions == pre.positions && post.log == pre.log && post.pickup_queue
            == pre.pickup_queue && post.craft_queue == pre.craft_queue,
    })
}

impl ControlMode {
    /// Dispatch one optional key press to the active control mode. The
    /// whole effect on the world follows `input_stage_effect`: the
    /// user-interface state follows `spec_handle_ui`, only the default
    /// mode moves the player, takes items or writes the log, and only the
    /// craft mode confirms a craft. The return value follows `spec_quits`.
    pub fn handle_input(&self, state: &mut State, key: Option<Key>) -> (quit: bool)
        requires
            old(state).world.wf(),
        ensures
            final(state).world.wf(),
            quit == spec_quits(*self, key),
            input_stage_effect(
                crate::world::stage_of(&old(state).world),
                crate::world::stage_of(&final(state).world),
                *self,
                key,
            ),
    {
        match self {
            ControlMode::Default => {
                let q = Self::handle_default(state, key);
                proof {
                    assert(input_stage_effect(
                        crate::world::stage_of(&old(state).world),
                        crate::world::stage_of(&state.world),
                        ControlMode::Default,
                        key,
                    ));
                }
                q
            },
            ControlMode::Inventory => {
                let q = Self::handle_inventory(state, key);
                proof {
                    assert(input_stage_effect(
                        crate::world::stage_of(&old(state).world),
                        crate::world::stage_of(&state.world),
                        ControlMode::Inventory,
                        key,
                    ));
                }
                q
            },
            ControlMode::Craft => {
                let q = Self::handle_craft(state, key);
                proof {
                    assert(input_stage_effect(
                        crate::world::stage_of(&old(state).world),
                        crate::world::stage_of(&state.world),
                        ControlMode::Craft,
                        key,
                    ));
                }
                q
            },
        }
    }

    fn handle_default(state: &mut State, key: Option<Key>) -> (quit: bool)
        requires
            old(state).world.wf(),
        ensures
            final(state).world.wf(),
            quit == spec_quits(ControlMode::Default, key),
            final(state).world.ui == spec_handle_ui(old(state).world.ui, ControlMode::Default, key),
            (match key {
                Some(k) => match move_delta(k) {
                    Some(d) => move_effect(
                        old(state).world.players@,
                        old(state).world.positions@,
                        old(state).world.map@,
                        old(state).world.blockers@,
                        final(state).world.positions@,
                        d.0,
                        d.1,
                    ) && final(state).world.log == old(state).world.log && final(state).world.pickup_queue == old(state).world.pickup_queue,
                    None => if k == Key::Comma || k == Key::G {
                        crate::components::items::take_effect(
                            old(state).world.players@,
                            old(state).world.positions@,
                            old(state).world.items@,
                            old(state).world.player,
                            crate::logs::log_v(old(state).world.log.entries@),
                            old(state).world.pickup_queue@,
                            crate::logs::log_v(final(state).world.log.entries@),
                            final(state).world.pickup_queue@,
                        ) && final(state).world.positions == old(state).world.positions
                    } else if k == Key::O {
                        crate::logs::log_v(final(state).world.log.entries@)
                            == crate::logs::spec_log(
                            crate::logs::log_v(old(state).world.log.entries@),
                            "there are no options yet"@,
                        ) && final(state).world.positions == old(state).world.positions && final(state).world.pickup_queue == old(state).world.pickup_queue
                    } else {
                        final(state).world.positions == old(state).world.positions && final(state).world.log == old(state).world.log && final(state).world.pickup_queue
                            == old(state).world.pickup_queue
                    },
                },
                None => final(state).world.positions == old(state).world.positions && final(state).world.log == old(state).world.log && final(state).world.pickup_queue == old(state).world.pickup_queue,
            }),
            final(state).world.craft_queue == old(state).world.craft_queue,
            final(state).world.renderables == old(state).world.renderables,
            final(state).world.players == old(state).world.players,
            final(state).world.names == old(state).world.names,
            final(state).world.items == old(state).world.items,
            final(state).world.flints == old(state).world.flints,
            final(state).world.bushes == old(state).world.bushes,
            final(state).world.wooden_sticks == old(state).world.wooden_sticks,
            final(state).world.roses == old(state).world.roses,
            final(state).world.axes == old(state).world.axes,
            final(state).world.fire_pits == old(state).world.fire_pits,
            final(state).world.backpacks == old(state).world.backpacks,
            final(state).world.tiers == old(state).world.tiers,
            final(state).world.blockers == old(state).world.blockers,
            final(state).world.map == old(state).world.map,
            final(state).world.player == old(state).world.player,
            final(state).world.next_id == old(state).world.next_id,
            final(state).world.pending_deletes == old(state).world.pending_deletes,
            final(state).world.pending_spawns == old(state).world.pending_spawns,
    {
        match key {
            None => false,
            Some(k) => match k {
                Key::H | Key::Left => {
                    try_move_player(-1, 0, &mut state.world);
                    false
                },
                Key::L | Key::Right => {
                    try_move_player(1, 0, &mut state.world);
                    false
                },
                Key::K | Key::Up => {
                    try_move_player(0, -1, &mut state.world);
                    false
                },
                Key::J | Key::Down => {
                    try_move_player(0, 1, &mut state.world);
                    false
                },
                Key::Y => {
                    try_move_player(-1, -1, &mut state.world);
                    false
                },
                Key::U => {
                    try_move_player(1, -1, &mut state.world);
                    false
                },
                Key::B => {
                    try_move_player(-1, 1, &mut state.world);
                    false
                },
                Key::N => {
                    try_move_player(1, 1, &mut state.world);
                    false
                },
                Key::Comma | Key::G => {
                    crate::components::items::get_item(&mut state.world);
                    false
                },
                Key::Apostrophe | Key::Grave => {
                    state.world.ui.log = !state.world.ui.log;
                    false
                },
                Key::Tab => {
                    state.world.ui.menu = !state.world.ui.menu;
                    false
                },
                Key::O => {
                    crate::logs::Log::by_world(&mut state.world, "there are no options yet");
                    false
                },
                Key::E => {
                    match state.world.ui.menu_mode {
                        MenuMode::Inventory => state.world.ui.menu_mode = MenuMode::Default,
                        _ => state.world.ui.menu_mode = MenuMode::Inventory,
                    }
                    match state.world.ui.control_mode {
                        ControlMode::Inventory => state.world.ui.control_mode
                            = ControlMode::Default,
                        _ => state.world.ui.control_mode = ControlMode::Inventory,
                    }
                    false
                },
                Key::C => {
                    match state.world.ui.menu_mode {
                        MenuMode::Craft => state.world.ui.menu_mode = MenuMode::Default,
                        _ => state.world.ui.menu_mode = MenuMode::Craft,
                    }
                    match state.world.ui.control_mode {
                        ControlMode::Craft => state.world.ui.control_mode = ControlMode::Default,
                        _ => state.world.ui.control_mode = ControlMode::Craft,
                    }
                    state.world.ui.selected_option = 0;
                    false
                },
                Key::I => {
                    match state.world.ui.menu_mode {
                        MenuMode::Interact => state.world.ui.menu_mode = MenuMode::Default,
                        _ => state.world.ui.menu_mode = MenuMode::Interact,
                    }
                    false
                },
                Key::Q | Key::Escape => true,
                _ => false,
            },
        }
    }

    fn handle_inventory(state: &mut State, key: Option<Key>) -> (quit: bool)
        requires
            old(state).world.wf(),
        ensures
            final(state).world.wf(),
            !quit,
            final(state).world.ui == spec_handle_ui(
                old(state).world.ui,
                ControlMode::Inventory,
                key,
            ),
            final(state).world.positions == old(state).world.positions,
            final(state).world.log == old(state).world.log,
            final(state).world.pickup_queue == old(state).world.pickup_queue,
            final(state).world.craft_queue == old(state).world.craft_queue,
            final(state).world.renderables == old(state).world.renderables,
            final(state).world.players == old(state).world.players,
            final(state).world.names == old(state).world.names,
            final(state).world.items == old(state).world.items,
            final(state).world.flints == old(state).world.flints,
            final(state).world.bushes == old(state).world.bushes,
            final(state).world.wooden_sticks == old(state).world.wooden_sticks,
            final(state).world.roses == old(state).world.roses,
            final(state).world.axes == old(state).world.axes,
            final(state).world.fire_pits == old(state).world.fire_pits,
            final(state).world.backpacks == old(state).world.backpacks,
            final(state).world.tiers == old(state).world.tiers,
            final(state).world.blockers == old(state).world.blockers,
            final(state).world.map == old(state).world.map,
            final(state).world.player == old(state).world.player,
            final(state).world.next_id == old(state).world.next_id,
            final(state).world.pending_deletes == old(state).world.pending_deletes,
            final(state).world.pending_spawns == old(state).world.pending_spawns,
    {
        match key {
            None => false,
            Some(k) => match k {
                Key::Escape | Key::Q => {
                    state.world.ui.control_mode = ControlMode::Default;
                    state.world.ui.menu_mode = MenuMode::Default;
                    false
                },
                _ => false,
            },
        }
    }

    fn handle_craft(state: &mut State, key: Option<Key>) -> (quit: bool)
        requires
            old(state).world.wf(),
        ensures
            final(state).world.wf(),
            !quit,
            final(state).world.ui == spec_handle_ui(old(state).world.ui, ControlMode::Craft, key),
            final(state).world.positions == old(state).world.positions,
            final(state).world.log == old(state).world.log,
            final(state).world.pickup_queue == old(state).world.pickup_queue,
            (match key {
                Some(Key::Return) | Some(Key::Space) => crate::world::crafts_v(
                    final(state).world.craft_queue@,
                ) == crate::gui::menu::fill_craft_intents(
                    crate::world::crafts_v(old(state).world.craft_queue@),
                    old(state).world.items@,
                    crate::systems::craft::spec_recipes()[old(state).world.ui.selected_option as int].result,
                ),
                _ => final(state).world.craft_queue == old(state).world.craft_queue,
            }),
            final(state).world.renderables == old(state).world.renderables,
            final(state).world.players == old(state).world.players,
            final(state).world.names == old(state).world.names,
            final(state).world.items == old(state).world.items,
            final(state).world.flints == old(state).world.flints,
            final(state).world.bushes == old(state).world.bushes,
            final(state).world.wooden_sticks == old(state).world.wooden_sticks,
            final(state).world.roses == old(state).world.roses,
            final(state).world.axes == old(state).world.axes,
            final(state).world.fire_pits == old(state).world.fire_pits,
            final(state).world.backpacks == old(state).world.backpacks,
            final(state).world.tiers == old(state).world.tiers,
            final(state).world.blockers == old(state).world.blockers,
            final(state).world.map == old(state).world.map,
            final(state).world.player == old(state).world.player,
            final(state).world.next_id == old(state).world.next_id,
            final(state).world.pending_deletes == old(state).world.pending_deletes,
            final(state).world.pending_spawns == old(state).world.pending_spawns,
    {
        match key {
            None => false,
            Some(k) => match k {
                Key::Escape | Key::Q => {
                    state.world.ui.control_mode = ControlMode::Default;
                    state.world.ui.menu_mode = MenuMode::Default;
                    false
                },
                Key::J | Key::Down => {
                    if state.world.ui.selected_option + 2 > crate::systems::craft::RECIPE_COUNT {
                        return false;
                    }
                    state.world.ui.selected_option = state.world.ui.selected_option + 1;
                    false
                },
                Key::K | Key::Up => {
                    if state.world.ui.selected_option == 0 {
                        return false;
                    }
                    state.world.ui.selected_option = state.world.ui.selected_option - 1;
                    false
                },
                Key::Return | Key::Space => {
                    crate::gui::menu::craft(state);
                    false
                },
                _ => false,
            },
        }
    }
}

} // verus!
