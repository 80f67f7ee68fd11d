pub mod helpers;
