//! Verified core of a SunSpec smart meter emulator: the Modbus register
//! layout of each emulated meter, how readings are stored into it, how
//! requests are routed and answered, and the small parsers around it.

pub mod registers;
pub mod text;
pub mod meter;
pub mod mqtt;
pub mod settings;
pub mod home_assistant;
pub mod shelly;
