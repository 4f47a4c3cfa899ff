pub mod app_state;
pub mod room_state;
