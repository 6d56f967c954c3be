pub mod button;
pub mod vx_message_box;
