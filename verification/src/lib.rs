//! Stella: picks a desktop wallpaper from the time of day, the outside
//! temperature and whether headphones are plugged in.
pub mod wallpaper_changer;
pub mod digits;
pub mod decimal;
pub mod text;
pub mod json;
pub mod headphones_jack;
