pub mod color;
pub mod driver;
pub mod physics;
pub mod presentation;
pub mod state;
pub mod walls;
