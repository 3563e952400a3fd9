//! The verified core of a field data collector: it talks Modbus RTU to meters
//! behind a LoRa gateway, queues what they answer and uploads it in signed
//! batches.

pub mod clock;
pub mod config;
pub mod crc;
pub mod decimal;
pub mod event;
pub mod frames;
pub mod gateway;
pub mod hex_text;
pub mod modbus;
pub mod queue;
pub mod poller;
pub mod signing;
pub mod uploader;
