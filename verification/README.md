# usbfs

Driver of the USBFS full-speed USB device controller of the CH32X035, verified
with Verus.

The library (`src/`) decides everything the driver does: how the peripheral is
brought up, which endpoints are handed out, how interrupts are served, and how
transfers go. It never touches the hardware: it is handed what was read from the
registers and returns the operations to perform, in order. `src/model.rs` says
what those operations do, and `src/laws/` proves what follows for the driver as a
whole.

`app/` connects the library to the hardware and implements the traits of
`embassy-usb-driver`. A chip's register definitions come in through its `Instance`
trait.

With a table of 4 endpoints, endpoints 1 to 3 can be allocated; with a table of 8,
endpoints 5 to 7 as well. Each endpoint serves one direction.
