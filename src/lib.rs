pub mod hub;
pub mod records;
pub mod relay;
pub mod segment;
pub mod store;
pub mod text;
pub mod window;
