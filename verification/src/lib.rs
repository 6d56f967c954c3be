pub mod types;
pub mod vx_core;
pub mod abstractions;
pub mod painter;
pub mod widgets;
