pub mod setup;
pub mod tunables;
