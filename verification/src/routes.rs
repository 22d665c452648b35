//! What the server answers on its routes.
pub mod disconnect;
pub mod health;
pub mod status;
pub mod status_raw;
pub mod ws;
