//! Interface implementations: how messages are carried over each kind of wire.
pub mod embassy_usb;
pub mod nusb_bulk;
pub mod tokio_serial_cobs;
pub mod tokio_stream;
pub mod tokio_tcp;
pub mod tokio_udp;
