pub mod setup_display;
pub mod setup_wifi;
