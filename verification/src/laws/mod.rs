//! What the library promises as a whole, in the words and numbers that its users see.
pub mod addresses;
pub mod commands;
pub mod courses;
pub mod files;
pub mod programs;
pub mod readings;
pub mod selectors;
pub mod texts;
pub mod times;
