pub mod abstract_widgets;
pub mod abstract_windows;
pub mod abstract_layouts;
