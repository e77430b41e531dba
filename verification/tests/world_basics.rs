use pipelain::components::items::name_by_tier;
use pipelain::config::{Config, Performance};
use pipelain::gui::menu::dec_string;
use pipelain::map::{MAP_COUNT, TileType, is_tile_walkable, new_map, xy_to_idx};
use pipelain::systems::craft::recipes;
use pipelain::world::{Entity, World};

#[test]
fn map_has_full_size() {
    let map = new_map();
    assert_eq!(map.len(), MAP_COUNT);
    assert_eq!(map.len(), 4000);
}

#[test]
fn map_border_is_wall_interior_is_floor() {
    let map = new_map();
    for x in 0..80i32 {
        assert_eq!(map[xy_to_idx(x, 0)], TileType::Wall);
        assert_eq!(map[xy_to_idx(x, 49)], TileType::Wall);
    }
    for y in 0..50i32 {
        assert_eq!(map[xy_to_idx(0, y)], TileType::Wall);
        assert_eq!(map[xy_to_idx(79, y)], TileType::Wall);
    }
    for x in 1..79i32 {
        for y in 1..49i32 {
            assert_eq!(map[xy_to_idx(x, y)], TileType::Floor);
        }
    }
}

#[test]
fn xy_to_idx_is_row_major() {
    assert_eq!(xy_to_idx(0, 0), 0);
    assert_eq!(xy_to_idx(79, 0), 79);
    assert_eq!(xy_to_idx(0, 1), 80);
    assert_eq!(xy_to_idx(40, 25), 25 * 80 + 40);
}

#[test]
fn walls_are_not_walkable() {
    assert!(!is_tile_walkable(TileType::Wall));
    assert!(is_tile_walkable(TileType::Floor));
}

#[test]
fn decimal_rendering_is_exact() {
    assert_eq!(dec_string(0), "0");
    assert_eq!(dec_string(7), "7");
    assert_eq!(dec_string(10), "10");
    assert_eq!(dec_string(144), "144");
    assert_eq!(dec_string(4009), "4009");
}

#[test]
fn recipe_table_is_exact() {
    let rs = recipes();
    assert_eq!(rs.len(), 2);
    assert_eq!(rs[0].result_item_name, "Flint Axe");
    assert_eq!(rs[0].requirements.len(), 2);
    assert_eq!(rs[0].requirements[0].item_name, "Flint");
    assert_eq!(rs[0].requirements[0].amount, 3);
    assert_eq!(rs[0].requirements[1].item_name, "Wooden Stick");
    assert_eq!(rs[0].requirements[1].amount, 2);
    assert_eq!(rs[1].result_item_name, "Fire Pit");
    assert_eq!(rs[1].requirements[0].item_name, "Flint");
    assert_eq!(rs[1].requirements[0].amount, 2);
    assert_eq!(rs[1].requirements[1].item_name, "Wooden Stick");
    assert_eq!(rs[1].requirements[1].amount, 1);
}

#[test]
fn tier_zero_is_flint() {
    assert_eq!(name_by_tier(0), "Flint");
}

#[test]
fn default_config_shows_fps() {
    let c = Config::default();
    assert_eq!(c, Config::Performance(Performance { show_fps: true, fps_cap: 144 }));
}

#[test]
fn log_drops_consecutive_duplicates() {
    let mut w = World::new();
    w.log.log("hello");
    w.log.log("hello");
    assert_eq!(w.log.entries.len(), 1);
    w.log.log("world");
    assert_eq!(w.log.entries.len(), 2);
    w.log.log("hello");
    assert_eq!(w.log.entries.len(), 3);
}

#[test]
fn destroy_removes_every_component() {
    let mut w = World::new();
    let e = pipelain::spawner::flint(&mut w, 5, 5);
    assert!(w.positions.contains(e));
    assert!(w.items.contains(e));
    assert!(w.names.contains(e));
    assert!(w.flints.contains(e));
    w.destroy(e);
    assert!(!w.positions.contains(e));
    assert!(!w.items.contains(e));
    assert!(!w.names.contains(e));
    assert!(!w.flints.contains(e));
}

#[test]
fn deferred_deletion_applies_only_at_maintain() {
    let mut w = World::new();
    let e = pipelain::spawner::flint(&mut w, 5, 5);
    w.delete_deferred(e);
    assert!(w.positions.contains(e));
    w.maintain();
    assert!(!w.positions.contains(e));
    assert!(!w.items.contains(e));
}

#[test]
fn entity_ids_are_never_reused() {
    let mut w = World::new();
    let a = pipelain::spawner::flint(&mut w, 5, 5);
    w.destroy(a);
    let b = pipelain::spawner::flint(&mut w, 6, 6);
    assert_ne!(a, b);
    assert!(b.id > a.id);
}

#[test]
fn generated_items_sit_inside_the_border() {
    let mut w = World::new();
    pipelain::spawner::generate_items(&mut w);
    let n = w.positions.len();
    assert!(n > 0);
    for i in 0..n {
        let p = *w.positions.val_at(i);
        assert!(1 <= p.x && p.x <= 78, "x out of range: {}", p.x);
        assert!(1 <= p.y && p.y <= 48, "y out of range: {}", p.y);
    }
}

#[test]
fn spawned_flint_uses_the_codepage_glyph() {
    let mut w = World::new();
    let e = pipelain::spawner::flint(&mut w, 5, 5);
    let r = w.renderables.get(e).copied().unwrap();
    // CP437 maps the degree sign to 248; a raw char cast would give 176.
    assert_eq!(r.glyph, 248);
    let rose = pipelain::spawner::rose(&mut w, 6, 6);
    let rr = w.renderables.get(rose).copied().unwrap();
    // CP437 maps the plus-minus sign to 241, not its unicode value 177.
    assert_eq!(rr.glyph, 241);
}

#[test]
fn world_starts_with_both_panels_shown() {
    let w = World::new();
    assert!(w.ui.log);
    assert!(w.ui.menu);
    assert_eq!(w.ui.selected_option, 0);
    assert_eq!(w.player, Entity { id: 0 });
    assert_eq!(w.next_id, 1);
}
