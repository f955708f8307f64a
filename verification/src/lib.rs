pub mod addressing;
pub mod post;
pub mod store;
