pub mod server;
pub mod state;
pub mod types;
