pub mod memtrack;
pub mod tracker;
