pub mod painter;
