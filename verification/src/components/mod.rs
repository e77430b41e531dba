pub mod items;
