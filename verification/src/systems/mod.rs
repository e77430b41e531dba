pub mod craft;
pub mod pickup;
