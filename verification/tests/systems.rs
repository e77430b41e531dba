use pipelain::components::items::{BlocksMovement, CraftQueue, get_item};
use pipelain::player::{ControlMode, Key, try_move_player};
use pipelain::spawner;
use pipelain::state::State;
use pipelain::systems::craft::CraftSystem;
use pipelain::systems::pickup::PickupSystem;
use pipelain::world::{Entity, World};

fn count_named(w: &World, owner: Entity, name: &str) -> usize {
    let mut n = 0;
    for i in 0..w.backpacks.len() {
        let e = w.backpacks.key_at(i);
        if w.backpacks.val_at(i).owner == owner {
            if let Some(nm) = w.names.get(e) {
                if nm.name == name {
                    n += 1;
                }
            }
        }
    }
    n
}

fn pick_up_everything_here(state: &mut State, times: usize) {
    for _ in 0..times {
        get_item(&mut state.world);
        state.run_systems();
    }
}

#[test]
fn pickup_moves_item_into_backpack() {
    let mut state = State::default();
    let p = spawner::player(&mut state.world, 10, 10);
    let f = spawner::flint(&mut state.world, 10, 10);
    get_item(&mut state.world);
    assert_eq!(state.world.pickup_queue.len(), 1);
    let mut sys = PickupSystem {};
    sys.run(&mut state.world);
    // the item lost its position and gained ownership
    assert!(!state.world.positions.contains(f));
    let held = state.world.backpacks.get(f).copied().unwrap();
    assert_eq!(held.owner, p);
    // the player picking up logs a line; intents are cleared
    assert_eq!(state.world.log.entries.last().unwrap(), "you pick up the Flint");
    assert_eq!(state.world.pickup_queue.len(), 0);
}

#[test]
fn pickup_with_no_item_logs_a_notice() {
    let mut state = State::default();
    spawner::player(&mut state.world, 10, 10);
    get_item(&mut state.world);
    assert_eq!(state.world.pickup_queue.len(), 0);
    assert_eq!(
        state.world.log.entries.last().unwrap(),
        "there is nothing to be picked up here"
    );
}

#[test]
fn pickup_clears_intents_even_without_any() {
    let mut state = State::default();
    spawner::player(&mut state.world, 10, 10);
    let mut sys = PickupSystem {};
    sys.run(&mut state.world);
    assert_eq!(state.world.pickup_queue.len(), 0);
}

#[test]
fn item_is_on_map_or_in_backpack_never_both() {
    let mut state = State::default();
    spawner::player(&mut state.world, 10, 10);
    let f = spawner::flint(&mut state.world, 10, 10);
    // free on the map: position, no backpack
    assert!(state.world.positions.contains(f));
    assert!(!state.world.backpacks.contains(f));
    pick_up_everything_here(&mut state, 1);
    // held: backpack, no position
    assert!(!state.world.positions.contains(f));
    assert!(state.world.backpacks.contains(f));
}

#[test]
fn crafting_a_flint_axe_consumes_three_flint_and_two_sticks() {
    let mut state = State::default();
    let p = spawner::player(&mut state.world, 10, 10);
    for _ in 0..3 {
        spawner::flint(&mut state.world, 10, 10);
    }
    for _ in 0..2 {
        spawner::wooden_stick(&mut state.world, 10, 10);
    }
    pick_up_everything_here(&mut state, 5);
    assert_eq!(count_named(&state.world, p, "Flint"), 3);
    assert_eq!(count_named(&state.world, p, "Wooden Stick"), 2);

    state.world.ui.selected_option = 0;
    pipelain::gui::menu::craft(&mut state);
    assert!(state.world.craft_queue.len() > 0);
    state.run_systems();

    assert_eq!(count_named(&state.world, p, "Flint"), 0);
    assert_eq!(count_named(&state.world, p, "Wooden Stick"), 0);
    assert_eq!(count_named(&state.world, p, "Flint Axe"), 1);
    assert_eq!(state.world.craft_queue.len(), 0);
}

#[test]
fn crafting_leaves_surplus_ingredients_alone() {
    let mut state = State::default();
    let p = spawner::player(&mut state.world, 10, 10);
    for _ in 0..4 {
        spawner::flint(&mut state.world, 10, 10);
    }
    for _ in 0..3 {
        spawner::wooden_stick(&mut state.world, 10, 10);
    }
    pick_up_everything_here(&mut state, 7);
    state.world.ui.selected_option = 0;
    pipelain::gui::menu::craft(&mut state);
    state.run_systems();
    assert_eq!(count_named(&state.world, p, "Flint"), 1);
    assert_eq!(count_named(&state.world, p, "Wooden Stick"), 1);
    assert_eq!(count_named(&state.world, p, "Flint Axe"), 1);
}

#[test]
fn crafting_a_fire_pit() {
    let mut state = State::default();
    let p = spawner::player(&mut state.world, 10, 10);
    for _ in 0..2 {
        spawner::flint(&mut state.world, 10, 10);
    }
    spawner::wooden_stick(&mut state.world, 10, 10);
    pick_up_everything_here(&mut state, 3);
    state.world.ui.selected_option = 1;
    pipelain::gui::menu::craft(&mut state);
    state.run_systems();
    assert_eq!(count_named(&state.world, p, "Fire Pit"), 1);
    assert_eq!(count_named(&state.world, p, "Flint"), 0);
    assert_eq!(count_named(&state.world, p, "Wooden Stick"), 0);
}

#[test]
fn crafting_an_unknown_recipe_changes_nothing_but_still_clears() {
    let mut state = State::default();
    spawner::player(&mut state.world, 10, 10);
    let f = spawner::flint(&mut state.world, 12, 12);
    state.world.craft_queue.insert(
        f,
        CraftQueue { item_name: "Golden Axe".to_string() },
    );
    let positions_before = state.world.positions.len();
    let items_before = state.world.items.len();
    let mut sys = CraftSystem {};
    sys.run(&mut state.world);
    assert_eq!(state.world.craft_queue.len(), 0);
    assert_eq!(state.world.pending_deletes.len(), 0);
    assert_eq!(state.world.pending_spawns.len(), 0);
    assert_eq!(state.world.positions.len(), positions_before);
    assert_eq!(state.world.items.len(), items_before);
    assert_eq!(state.world.log.entries.last().unwrap(), "tried to craft Golden Axe");
}

#[test]
fn craft_system_with_no_intent_does_nothing() {
    let mut state = State::default();
    spawner::player(&mut state.world, 10, 10);
    let log_before = state.world.log.entries.len();
    let mut sys = CraftSystem {};
    sys.run(&mut state.world);
    assert_eq!(state.world.log.entries.len(), log_before);
    assert_eq!(state.world.pending_spawns.len(), 0);
}

#[test]
fn moving_onto_floor_applies_the_delta() {
    let mut state = State::default();
    let p = spawner::player(&mut state.world, 40, 25);
    try_move_player(1, 0, &mut state.world);
    let pos = state.world.positions.get(p).copied().unwrap();
    assert_eq!((pos.x, pos.y), (41, 25));
    try_move_player(-1, 1, &mut state.world);
    let pos = state.world.positions.get(p).copied().unwrap();
    assert_eq!((pos.x, pos.y), (40, 26));
}

#[test]
fn moving_onto_a_wall_leaves_position_unchanged() {
    let mut state = State::default();
    let p = spawner::player(&mut state.world, 1, 1);
    try_move_player(-1, 0, &mut state.world);
    let pos = state.world.positions.get(p).copied().unwrap();
    assert_eq!((pos.x, pos.y), (1, 1));
    try_move_player(0, -1, &mut state.world);
    let pos = state.world.positions.get(p).copied().unwrap();
    assert_eq!((pos.x, pos.y), (1, 1));
}

#[test]
fn moving_onto_a_blocker_leaves_position_unchanged() {
    let mut state = State::default();
    let p = spawner::player(&mut state.world, 40, 25);
    // a tree-like blocker one tile east of the player
    let tree = spawner::bush(&mut state.world, 41, 25);
    state.world.blockers.insert(tree, BlocksMovement {});
    try_move_player(1, 0, &mut state.world);
    let pos = state.world.positions.get(p).copied().unwrap();
    assert_eq!((pos.x, pos.y), (40, 25));
    // the other directions stay open
    try_move_player(0, 1, &mut state.world);
    let pos = state.world.positions.get(p).copied().unwrap();
    assert_eq!((pos.x, pos.y), (40, 26));
}

fn observable(w: &World) -> (usize, usize, usize, usize, usize, u64) {
    (
        w.positions.len(),
        w.backpacks.len(),
        w.items.len(),
        w.names.len(),
        w.log.entries.len(),
        w.next_id,
    )
}

#[test]
fn running_systems_without_intents_changes_nothing() {
    let mut state = State::default();
    let p = spawner::player(&mut state.world, 10, 10);
    spawner::flint(&mut state.world, 10, 10);
    spawner::flint(&mut state.world, 11, 10);
    pick_up_everything_here(&mut state, 1);
    let before = observable(&state.world);
    let held_before = count_named(&state.world, p, "Flint");
    for _ in 0..4 {
        state.run_systems();
    }
    assert_eq!(observable(&state.world), before);
    assert_eq!(count_named(&state.world, p, "Flint"), held_before);
}

#[test]
fn default_mode_toggles_inventory_and_craft() {
    let mut state = State::default();
    spawner::player(&mut state.world, 10, 10);
    let mode = state.world.ui.control_mode;
    assert_eq!(mode, ControlMode::Default);
    let quit = mode.handle_input(&mut state, Some(Key::E));
    assert!(!quit);
    assert_eq!(state.world.ui.control_mode, ControlMode::Inventory);
    // the same key in default mode toggles back; inventory mode leaves on escape
    let quit = ControlMode::Inventory.handle_input(&mut state, Some(Key::Escape));
    assert!(!quit);
    assert_eq!(state.world.ui.control_mode, ControlMode::Default);
    let quit = ControlMode::Default.handle_input(&mut state, Some(Key::C));
    assert!(!quit);
    assert_eq!(state.world.ui.control_mode, ControlMode::Craft);
    assert_eq!(state.world.ui.selected_option, 0);
}

#[test]
fn craft_mode_selection_stays_in_range() {
    let mut state = State::default();
    spawner::player(&mut state.world, 10, 10);
    state.world.ui.control_mode = ControlMode::Craft;
    ControlMode::Craft.handle_input(&mut state, Some(Key::K));
    assert_eq!(state.world.ui.selected_option, 0);
    ControlMode::Craft.handle_input(&mut state, Some(Key::J));
    assert_eq!(state.world.ui.selected_option, 1);
    ControlMode::Craft.handle_input(&mut state, Some(Key::J));
    assert_eq!(state.world.ui.selected_option, 1);
    ControlMode::Craft.handle_input(&mut state, Some(Key::K));
    assert_eq!(state.world.ui.selected_option, 0);
}

#[test]
fn quitting_only_works_in_default_mode() {
    let mut state = State::default();
    spawner::player(&mut state.world, 10, 10);
    assert!(ControlMode::Default.handle_input(&mut state, Some(Key::Q)));
    assert!(ControlMode::Default.handle_input(&mut state, Some(Key::Escape)));
    assert!(!ControlMode::Inventory.handle_input(&mut state, Some(Key::Q)));
    assert!(!ControlMode::Craft.handle_input(&mut state, Some(Key::Escape)));
    assert!(!ControlMode::Default.handle_input(&mut state, None));
}

#[test]
fn panel_toggles_flip_their_flags() {
    let mut state = State::default();
    spawner::player(&mut state.world, 10, 10);
    assert!(state.world.ui.log);
    ControlMode::Default.handle_input(&mut state, Some(Key::Grave));
    assert!(!state.world.ui.log);
    ControlMode::Default.handle_input(&mut state, Some(Key::Tab));
    assert!(!state.world.ui.menu);
    ControlMode::Default.handle_input(&mut state, Some(Key::Tab));
    assert!(state.world.ui.menu);
}

#[test]
fn the_options_key_logs_a_notice() {
    let mut state = State::default();
    spawner::player(&mut state.world, 10, 10);
    ControlMode::Default.handle_input(&mut state, Some(Key::O));
    assert_eq!(state.world.log.entries.last().unwrap(), "there are no options yet");
    // logging it again in a row adds no duplicate line
    let len = state.world.log.entries.len();
    ControlMode::Default.handle_input(&mut state, Some(Key::O));
    assert_eq!(state.world.log.entries.len(), len);
}

#[test]
fn pickup_takes_the_last_matching_item_on_the_tile() {
    let mut state = State::default();
    let p = spawner::player(&mut state.world, 10, 10);
    spawner::flint(&mut state.world, 10, 10);
    let stick = spawner::wooden_stick(&mut state.world, 10, 10);
    get_item(&mut state.world);
    state.run_systems();
    // the later entity wins the tie-break
    assert!(state.world.backpacks.contains(stick));
    assert_eq!(count_named(&state.world, p, "Wooden Stick"), 1);
    assert_eq!(count_named(&state.world, p, "Flint"), 0);
}
