//! Forwarding of sensor data: readings are collected from serial ports or taken from a websocket,
//! broadcast to clients, stored, and sent to a remote server in batches.
pub mod batch;
pub mod clock;
pub mod cycle;
pub mod fields;
pub mod layout;
pub mod link;
pub mod pacing;
pub mod packet;
pub mod queries;
pub mod record;
pub mod serial;
pub mod setup;
pub mod text;
pub mod timing;
pub mod upload;
