pub mod model;
pub mod service;
pub mod state;
pub mod store;
