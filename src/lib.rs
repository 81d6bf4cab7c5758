//! A gateway that serves named hardware endpoints ("limbs") through a small
//! request/response protocol. The set of limbs comes from a JSON configuration
//! document and can be replaced while the server runs.

pub mod http_status_code;
pub mod response_data;
pub mod text;
pub mod config;
pub mod port_settings;
pub mod limb;
pub mod server;
pub mod pin;
pub mod serial;
pub mod xmodem;
