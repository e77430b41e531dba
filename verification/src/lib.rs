//! Core of a small terminal roguelike: a typed entity/component store, the
//! pickup and craft systems that consume intent components, player movement
//! over a tiled map, and the per-frame menu/render layout, all verified.
//! Drawing, key decoding and config loading are left to a thin shell that
//! feeds plain values in and carries draw operations out.
use vstd::prelude::*;

pub mod components;
pub mod config;
pub mod draw;
pub mod gui;
pub mod logs;
pub mod map;
pub mod outside;
pub mod player;
pub mod spawner;
pub mod state;
pub mod systems;
pub mod world;

verus! {

/// Integer grid coordinates of an entity on the map.
#[derive(Copy, Clone, PartialEq, Eq, Structural, Debug)]
pub struct Position {
    pub x: i32,
    pub y: i32,
}

/// How an entity is drawn: a CP437 glyph and its colors.
#[derive(Copy, Clone, PartialEq, Eq, Structural, Debug)]
pub struct Renderable {
    pub glyph: u16,
    pub fg: crate::draw::Color,
    pub bg: crate::draw::Color,
}

/// Display name of an entity; also the identity key for inventory
/// aggregation and recipe matching.
#[derive(Debug)]
pub struct Name {
    pub name: String,
}

} // verus!
