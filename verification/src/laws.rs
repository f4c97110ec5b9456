//! What holds of the driver as a whole, proved from what its functions ensure.

pub mod allocation;
pub mod bounds;
pub mod bus;
pub mod control;
pub mod interrupts;
pub mod registers;
pub mod stages;
pub mod startup;
pub mod transfers;
pub mod wakers;
