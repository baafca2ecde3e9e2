//! Discord side: where messages go, how embeds are shaped, and the identity
//! verification flow of the class server.
pub mod utils;
pub mod types;
pub mod delivery;
pub mod forms;
pub mod profile;
pub mod handler;
