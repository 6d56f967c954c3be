pub mod renderer;
pub mod signal;
pub mod tex_registry;
pub mod dirty_queue;
pub mod vx_event;
pub mod scene;
