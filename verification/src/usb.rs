//! The vocabulary of USB that the driver shares with the stack above it:
//! directions, transfer types, endpoint addresses, bus events and errors.

use vstd::prelude::*;

verus! {

/// Direction of USB traffic, named from the host's side.
#[derive(Clone, Copy, Debug, PartialEq, Eq, Structural)]
pub enum Direction {
    /// Host to device.
    Out,
    /// Device to host.
    In,
}

/// Transfer type of an endpoint.
#[derive(Clone, Copy, Debug, PartialEq, Eq, Structural)]
pub enum EndpointType {
    Control,
    Isochronous,
    Bulk,
    Interrupt,
}

/// Endpoint address as it appears in descriptors: bit 7 is the direction, the
/// other bits are the endpoint number.
#[derive(Clone, Copy, Debug, PartialEq, Eq, Structural)]
pub struct EndpointAddress {
    pub bits: u8,
}

/// Static properties of an endpoint.
#[derive(Clone, Copy, Debug, PartialEq, Eq, Structural)]
pub struct EndpointInfo {
    pub addr: EndpointAddress,
    pub ep_type: EndpointType,
    /// In bytes.
    pub max_packet_size: u16,
    /// Polling interval in milliseconds.
    pub interval_ms: u8,
}

/// No endpoint could be allocated for a request.
#[derive(Clone, Copy, Debug, PartialEq, Eq, Structural)]
pub struct EndpointAllocError;

/// The driver does not support the operation.
#[derive(Clone, Copy, Debug, PartialEq, Eq, Structural)]
pub struct Unsupported;

/// Why a transfer failed.
#[derive(Clone, Copy, Debug, PartialEq, Eq, Structural)]
pub enum EndpointError {
    /// The packet does not fit: into the endpoint when sending, into the
    /// caller's buffer when receiving.
    BufferOverflow,
    /// The endpoint is disabled, or a new SETUP packet cut the transfer short.
    Disabled,
}

/// What happened on the bus.
#[derive(Clone, Copy, Debug, PartialEq, Eq, Structural)]
pub enum Event {
    Reset,
    Suspend,
    Resume,
    PowerDetected,
}

/// Outcome of one look at the hardware by a task that waits for it.
#[derive(Debug, PartialEq, Eq)]
pub enum Poll<T> {
    Ready(T),
    Pending,
}

impl EndpointAddress {
    /// Endpoint number of the address.
    pub open spec fn spec_index(self) -> int {
        (self.bits & 0x7f) as int
    }

    /// Direction of the address.
    pub open spec fn spec_direction(self) -> Direction {
        if self.bits & 0x80 != 0 {
            Direction::In
        } else {
            Direction::Out
        }
    }

    /// Address of endpoint `index` in direction `dir`.
    pub open spec fn spec_from_parts(index: usize, dir: Direction) -> EndpointAddress {
        EndpointAddress {
            bits: index as u8 | (match dir {
                Direction::Out => 0x00u8,
                Direction::In => 0x80u8,
            }),
        }
    }

    /// Calls `embassy_usb_driver::EndpointAddress::index`, which masks the
    /// direction bit off.
    #[verifier::external_body]
    pub(crate) fn index(self) -> (index: usize)
        ensures
            index == self.spec_index(),
    {
        embassy_usb_driver::EndpointAddress::from(self.bits).index()
    }

    /// Calls `embassy_usb_driver::EndpointAddress::direction`, which reads the
    /// direction bit.
    #[verifier::external_body]
    pub(crate) fn direction(self) -> (dir: Direction)
        ensures
            dir == self.spec_direction(),
    {
        match embassy_usb_driver::EndpointAddress::from(self.bits).direction() {
            embassy_usb_driver::Direction::Out => Direction::Out,
            embassy_usb_driver::Direction::In => Direction::In,
        }
    }

    /// Calls `embassy_usb_driver::EndpointAddress::from_parts`, which joins the
    /// low byte of the endpoint number and the direction bit.
    #[verifier::external_body]
    pub(crate) fn from_parts(index: usize, dir: Direction) -> (addr: EndpointAddress)
        ensures
            addr == EndpointAddress::spec_from_parts(index, dir),
    {
        let dir = match dir {
            Direction::Out => embassy_usb_driver::Direction::Out,
            Direction::In => embassy_usb_driver::Direction::In,
        };
        EndpointAddress { bits: embassy_usb_driver::EndpointAddress::from_parts(index, dir).into() }
    }
}

/// An address holds the endpoint number and the direction that it was made
/// from.
pub proof fn law_address_parts(index: usize, dir: Direction)
    requires
        index < 0x80,
    ensures
        EndpointAddress::spec_from_parts(index, dir).spec_index() == index,
        EndpointAddress::spec_from_parts(index, dir).spec_direction() == dir,
{
    let low = index as u8;
    assert(low < 0x80u8 ==> (low | 0x00u8) & 0x7f == low && (low | 0x00u8) & 0x80 == 0
        && (low | 0x80u8) & 0x7f == low && (low | 0x80u8) & 0x80 != 0) by (bit_vector);
}

/// An address is its endpoint number, below 128, plus 128 for IN; number and
/// direction make it up again.
pub proof fn law_address_bits(addr: EndpointAddress)
    ensures
        0 <= addr.spec_index() < 128,
        addr.spec_index() == addr.bits % 128,
        addr.spec_direction() == Direction::In <==> addr.bits >= 128,
        addr.bits == addr.spec_index() + if addr.spec_direction() == Direction::In {
            128int
        } else {
            0int
        },
        EndpointAddress::spec_from_parts(addr.spec_index() as usize, addr.spec_direction()) == addr,
{
    let bits = addr.bits;
    let low = bits & 0x7f;
    assert(low < 128 && low == bits % 128 && (bits & 0x80 != 0 <==> bits >= 128)) by (bit_vector)
        requires
            low == bits & 0x7f,
    ;
    assert((bits & 0x80 != 0 ==> low | 0x80u8 == bits && bits == low + 128) && (bits & 0x80 == 0
        ==> low | 0x00u8 == bits && bits == low)) by (bit_vector)
        requires
            low == bits & 0x7f,
    ;
}

/// Direction that an endpoint type stands for.
pub trait Dir {
    spec fn spec_dir() -> Direction;

    fn dir() -> (dir: Direction)
        ensures
            dir == Self::spec_dir(),
    ;
}

/// Marks endpoints that send to the host.
pub enum In {
    Marker,
}

/// Marks endpoints that receive from the host.
pub enum Out {
    Marker,
}

impl Dir for In {
    open spec fn spec_dir() -> Direction {
        Direction::In
    }

    fn dir() -> (dir: Direction) {
        Direction::In
    }
}

impl Dir for Out {
    open spec fn spec_dir() -> Direction {
        Direction::Out
    }

    fn dir() -> (dir: Direction) {
        Direction::Out
    }
}

} // verus!
