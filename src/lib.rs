//! Timetable change tracking: compares two weekly schedule snapshots of an
//! educator and describes what changed in a readable HTML fragment.
pub mod batch;
pub mod day_diff;
pub mod digest;
pub mod educator_diff;
pub mod equality;
pub mod laws;
pub mod models;
pub mod order;
pub mod pdf_diff;
pub mod render;
pub mod sorts;
pub mod text;
pub mod users;
