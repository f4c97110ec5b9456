//! Driver of the USBFS full-speed USB device controller of the CH32X035 and its
//! relatives.
//!
//! Each endpoint number has a DMA buffer of its own, whose address is written to
//! the endpoint's DMA register. Endpoint 0 is the control endpoint. Endpoints 1 to
//! 3, and with the larger table also 5 to 7, can be allocated, each in one
//! direction: there is one buffer per endpoint number. Endpoint 4 shares the
//! buffer of endpoint 0 and is not used.
//!
//! The crate decides what the driver does. What it reads from the hardware is
//! handed to it, and what it wants done it appends to a [`regs::Usbd`].

pub mod bus;
pub mod control;
pub mod driver;
pub mod endpoint;
pub mod endpoints;
pub mod interrupt;
pub mod laws;
pub mod model;
pub mod regs;
pub mod usb;
