pub mod slot_model;
pub mod gen_vector;
pub mod genelational_vector;
pub mod color;
pub mod render_commands;
pub mod input;
pub mod geometry;
pub mod texture;
