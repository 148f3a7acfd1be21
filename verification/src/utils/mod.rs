pub mod simple_error;
pub mod always_same;
pub mod screen_utils;
pub mod http_utils;
pub mod image_utils;
