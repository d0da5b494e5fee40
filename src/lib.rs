//! CANopen frame classification and object-dictionary based process-data decoding.

pub mod client;
pub mod frame;
pub mod text;
pub mod types;
pub mod number;
pub mod dictionary;
pub mod eds;
pub mod sections;
pub mod pdo;
pub mod laws;
pub mod display;
