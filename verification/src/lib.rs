//! Driver for a single-wire digital humidity/temperature sensor.
//!
//! The sensor transmits one reading as 40 pulse-width-encoded bits over a
//! single GPIO line: the host wakes the sensor with a start signal, the
//! sensor answers with an acknowledgement pulse pair, and then sends five
//! bytes (humidity, temperature, checksum) one bit at a time. This crate
//! measures the pulses through a pin abstraction, decodes the bitstream and
//! validates the checksum, producing either a [`reading::Reading`] or a
//! typed [`error::Error`].

pub mod dht22;
pub mod error;
pub mod pin;
pub mod pulse;
pub mod reading;
pub mod sim;
pub mod timeline;

pub use dht22::DHT22;
pub use error::Error;
pub use pulse::Pulse;
pub use reading::Reading;
