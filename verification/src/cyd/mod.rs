pub mod screen_utils;
