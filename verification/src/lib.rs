//! Server-side library for a wireless network of CC32xx magnetic sensors:
//! framing and decoding of the MQTT packets the devices send, the per-device
//! bookkeeping (local ids, packet counters, time synchronisation) and the
//! InfluxDB line-protocol bodies that store the samples.
pub mod buf;
pub mod clock;
pub mod codec;
pub mod comm;
pub mod server;
pub mod text;
