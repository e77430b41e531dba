use pipelain::draw::{Color, DrawOp};
use pipelain::gui::draw_log;
use pipelain::gui::menu::{draw_menu, show_craft, show_inventory, show_options};
use pipelain::map::{TileType, draw_map, new_map};
use pipelain::spawner;
use pipelain::state::State;

#[test]
fn map_drawing_emits_one_cell_per_tile() {
    let map = new_map();
    let mut frame: Vec<DrawOp> = Vec::new();
    draw_map(&map, &mut frame);
    assert_eq!(frame.len(), 4000);
    // the first cell is the top-left wall, drawn with the CP437 '#' glyph
    match &frame[0] {
        DrawOp::Cell { x, y, fg, glyph, .. } => {
            assert_eq!((*x, *y), (0, 0));
            assert_eq!(*glyph, 35);
            assert_eq!(*fg, Color { r: 64, g: 64, b: 64 });
        }
        _ => panic!("expected a cell"),
    }
    // an interior cell is a floor dot
    match &frame[81] {
        DrawOp::Cell { x, y, glyph, fg, .. } => {
            assert_eq!((*x, *y), (1, 1));
            assert_eq!(*glyph, 46);
            assert_eq!(*fg, Color { r: 128, g: 128, b: 128 });
        }
        _ => panic!("expected a cell"),
    }
    // rows wrap after 80 cells
    match &frame[80] {
        DrawOp::Cell { x, y, .. } => assert_eq!((*x, *y), (0, 1)),
        _ => panic!("expected a cell"),
    }
}

#[test]
fn hidden_log_panel_draws_nothing() {
    let mut state = State::default();
    state.world.log.log("a line");
    state.world.ui.log = false;
    let mut frame: Vec<DrawOp> = Vec::new();
    draw_log(&state.world, &mut frame);
    assert!(frame.is_empty());
}

#[test]
fn log_panel_shows_newest_entries_first() {
    let mut state = State::default();
    for msg in ["one", "two", "three", "four", "five", "six"] {
        state.world.log.log(msg);
    }
    let mut frame: Vec<DrawOp> = Vec::new();
    draw_log(&state.world, &mut frame);
    // a box plus at most five lines
    assert_eq!(frame.len(), 6);
    match &frame[0] {
        DrawOp::Panel { x, y, w, h, .. } => assert_eq!((*x, *y, *w, *h), (0, 43, 79, 6)),
        _ => panic!("expected the log box"),
    }
    match &frame[1] {
        DrawOp::Text { x, y, text } => {
            assert_eq!((*x, *y), (2, 44));
            assert_eq!(text, "six");
        }
        _ => panic!("expected a log line"),
    }
    match &frame[5] {
        DrawOp::Text { y, text, .. } => {
            assert_eq!(*y, 48);
            assert_eq!(text, "two");
        }
        _ => panic!("expected a log line"),
    }
}

#[test]
fn menu_lists_the_five_options() {
    let mut frame: Vec<DrawOp> = Vec::new();
    show_options(&mut frame, 62, 2);
    assert_eq!(frame.len(), 10);
    match &frame[0] {
        DrawOp::ColorText { x, y, text, fg, .. } => {
            assert_eq!((*x, *y), (62, 3));
            assert_eq!(text, "d");
            assert_eq!(*fg, Color { r: 0, g: 255, b: 0 });
        }
        _ => panic!("expected the key"),
    }
    match &frame[1] {
        DrawOp::Text { x, y, text } => {
            assert_eq!((*x, *y), (63, 3));
            assert_eq!(text, ": build");
        }
        _ => panic!("expected the label"),
    }
    match &frame[9] {
        DrawOp::Text { y, text, .. } => {
            assert_eq!(*y, 11);
            assert_eq!(text, ": options");
        }
        _ => panic!("expected the label"),
    }
}

#[test]
fn menu_box_shrinks_when_the_log_is_shown() {
    let mut state = State::default();
    let mut frame: Vec<DrawOp> = Vec::new();
    draw_menu(&state.world, &mut frame);
    match &frame[0] {
        DrawOp::Panel { h, .. } => assert_eq!(*h, 42),
        _ => panic!("expected the menu box"),
    }
    state.world.ui.log = false;
    let mut frame: Vec<DrawOp> = Vec::new();
    draw_menu(&state.world, &mut frame);
    match &frame[0] {
        DrawOp::Panel { h, .. } => assert_eq!(*h, 49),
        _ => panic!("expected the menu box"),
    }
    state.world.ui.menu = false;
    let mut frame: Vec<DrawOp> = Vec::new();
    draw_menu(&state.world, &mut frame);
    assert!(frame.is_empty());
}

fn fill_backpack(state: &mut State, kind: fn(&mut pipelain::world::World, i32, i32) -> pipelain::world::Entity, n: usize) {
    for _ in 0..n {
        kind(&mut state.world, 10, 10);
        pipelain::components::items::get_item(&mut state.world);
        state.run_systems();
    }
}

#[test]
fn inventory_panel_aggregates_counts() {
    let mut state = State::default();
    spawner::player(&mut state.world, 10, 10);
    fill_backpack(&mut state, spawner::flint, 3);
    fill_backpack(&mut state, spawner::wooden_stick, 1);
    let mut frame: Vec<DrawOp> = Vec::new();
    show_inventory(&mut state, &mut frame);
    assert_eq!(frame.len(), 4);
    match &frame[1] {
        DrawOp::CenteredText { text, .. } => assert_eq!(text, "backpack"),
        _ => panic!("expected the title"),
    }
    match &frame[2] {
        DrawOp::Text { x, y, text } => {
            assert_eq!((*x, *y), (4, 4));
            assert_eq!(text, "Flint x3");
        }
        _ => panic!("expected a line"),
    }
    match &frame[3] {
        DrawOp::Text { y, text, .. } => {
            assert_eq!(*y, 5);
            assert_eq!(text, "Wooden Stick x1");
        }
        _ => panic!("expected a line"),
    }
}

#[test]
fn craft_panel_previews_craftability() {
    let mut state = State::default();
    spawner::player(&mut state.world, 10, 10);
    // two flints and one stick: enough for a fire pit, not for an axe
    fill_backpack(&mut state, spawner::flint, 2);
    fill_backpack(&mut state, spawner::wooden_stick, 1);
    let mut frame: Vec<DrawOp> = Vec::new();
    show_craft(&mut state, &mut frame);
    assert_eq!(frame.len(), 5);
    match &frame[2] {
        DrawOp::Cell { x, y, glyph, .. } => {
            assert_eq!((*x, *y), (4, 4));
            // CP437 right arrow
            assert_eq!(*glyph, 26);
        }
        _ => panic!("expected the selection arrow"),
    }
    match &frame[3] {
        DrawOp::ColorText { text, fg, .. } => {
            assert_eq!(text, "Flint Axe");
            assert_eq!(*fg, Color { r: 255, g: 0, b: 0 });
        }
        _ => panic!("expected the axe line"),
    }
    match &frame[4] {
        DrawOp::ColorText { text, fg, y, .. } => {
            assert_eq!(text, "Fire Pit");
            assert_eq!(*fg, Color { r: 0, g: 255, b: 0 });
            assert_eq!(*y, 5);
        }
        _ => panic!("expected the fire pit line"),
    }
}

#[test]
fn a_tick_renders_map_entities_and_panels() {
    let mut state = State::default();
    spawner::player(&mut state.world, 40, 25);
    spawner::flint(&mut state.world, 12, 12);
    let mut frame: Vec<DrawOp> = Vec::new();
    let quit = state.tick(None, &mut frame);
    assert!(!quit);
    // 4000 map cells, the flint, the player, the log box with its starting
    // entries (none yet), and the menu box with five two-part options
    assert!(frame.len() >= 4000 + 2 + 1 + 11);
    // the player cell comes after every other entity cell
    match &frame[4001] {
        DrawOp::Cell { x, y, glyph, .. } => {
            assert_eq!((*x, *y), (40, 25));
            // CP437 '@'
            assert_eq!(*glyph, 64);
        }
        _ => panic!("expected the player cell"),
    }
}

#[test]
fn quitting_through_a_tick() {
    let mut state = State::default();
    spawner::player(&mut state.world, 40, 25);
    let mut frame: Vec<DrawOp> = Vec::new();
    assert!(state.tick(Some(pipelain::player::Key::Q), &mut frame));
    let mut frame: Vec<DrawOp> = Vec::new();
    assert!(!state.tick(Some(pipelain::player::Key::H), &mut frame));
}

#[test]
fn inventory_lines_come_in_name_order_not_pickup_order() {
    let mut state = State::default();
    spawner::player(&mut state.world, 10, 10);
    // picked up in the opposite of name order
    fill_backpack(&mut state, spawner::wooden_stick, 2);
    fill_backpack(&mut state, spawner::flint, 1);
    let mut frame: Vec<DrawOp> = Vec::new();
    show_inventory(&mut state, &mut frame);
    assert_eq!(frame.len(), 4);
    match &frame[2] {
        DrawOp::Text { text, .. } => assert_eq!(text, "Flint x1"),
        _ => panic!("expected a line"),
    }
    match &frame[3] {
        DrawOp::Text { text, .. } => assert_eq!(text, "Wooden Stick x2"),
        _ => panic!("expected a line"),
    }
}

#[test]
fn generated_items_avoid_the_player_start_tile() {
    let mut w = pipelain::world::World::new();
    pipelain::spawner::generate_items(&mut w);
    for i in 0..w.positions.len() {
        let p = *w.positions.val_at(i);
        assert!(!(p.x == 40 && p.y == 25), "an item landed on the center tile");
    }
    // per-kind caps: one try per `chances` cells
    assert!(w.bushes.len() <= 125);
    assert!(w.wooden_sticks.len() <= 62);
    assert!(w.roses.len() <= 62);
    assert!(w.flints.len() <= 31);
}
