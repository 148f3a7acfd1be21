pub mod parse;
pub mod time_zone;
pub mod layout;
pub mod step;
pub mod screens;
