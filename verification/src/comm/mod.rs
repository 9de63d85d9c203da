pub mod config;
pub mod devices;
pub mod influx_error;
pub mod influx_info;
pub mod influx_state;
pub mod influxdb;
pub mod message;
