//! The vocabulary that the driver shares with a USB stack.
use vstd::prelude::*;

verus! {

/// Direction of USB traffic, seen from the host.
#[derive(Clone, Copy, Debug, PartialEq, Eq, Structural)]
pub enum Direction {
    /// Host to device.
    Out,
    /// Device to host.
    In,
}

/// USB transfer type of an endpoint.
#[derive(Clone, Copy, Debug, PartialEq, Eq, Structural)]
pub enum EndpointType {
    Control,
    Isochronous,
    Bulk,
    Interrupt,
}

/// Address of an endpoint as it stands in descriptors: the direction in the top bit, the index of
/// the endpoint in the bits below.
#[derive(Clone, Copy, Debug, PartialEq, Eq, Structural)]
pub struct EndpointAddress {
    pub raw: u8,
}

/// The address byte of endpoint `index`, of which the low byte counts.
pub open spec fn address_byte(index: usize, dir: Direction) -> u8 {
    (index as u8) | (match dir {
        Direction::Out => 0x00u8,
        Direction::In => 0x80u8,
    })
}

/// `embassy_usb_driver::EndpointAddress::from_parts`: the low byte of the index, with the top bit
/// set for the IN direction and otherwise left as the index has it.
#[verifier::external_body]
fn driver_from_parts(index: usize, dir: Direction) -> (raw: u8)
    ensures
        raw == address_byte(index, dir),
{
    let dir = match dir {
        Direction::Out => embassy_usb_driver::Direction::Out,
        Direction::In => embassy_usb_driver::Direction::In,
    };
    u8::from(embassy_usb_driver::EndpointAddress::from_parts(index, dir))
}

/// `embassy_usb_driver::EndpointAddress::index`: the address byte without its top bit.
#[verifier::external_body]
fn driver_index(raw: u8) -> (index: usize)
    ensures
        index == raw & 0x7f,
{
    embassy_usb_driver::EndpointAddress::from(raw).index()
}

/// `embassy_usb_driver::EndpointAddress::direction`: IN where the top bit of the address byte is
/// set, OUT where it is not.
#[verifier::external_body]
fn driver_direction(raw: u8) -> (dir: Direction)
    ensures
        dir == (if raw & 0x80 != 0 {
            Direction::In
        } else {
            Direction::Out
        }),
{
    match embassy_usb_driver::EndpointAddress::from(raw).direction() {
        embassy_usb_driver::Direction::Out => Direction::Out,
        embassy_usb_driver::Direction::In => Direction::In,
    }
}

/// `embassy_usb_driver::EndpointAddress::is_in`: whether the top bit of the address byte is set.
#[verifier::external_body]
fn driver_is_in(raw: u8) -> (r: bool)
    ensures
        r == (raw & 0x80 != 0),
{
    embassy_usb_driver::EndpointAddress::from(raw).is_in()
}

impl EndpointAddress {
    /// Index of the endpoint.
    pub open spec fn index_part(self) -> usize {
        (self.raw & 0x7f) as usize
    }

    /// Direction of the endpoint.
    pub open spec fn direction_part(self) -> Direction {
        if self.raw & 0x80 != 0 {
            Direction::In
        } else {
            Direction::Out
        }
    }

    /// The address of endpoint `index` in direction `dir`.
    pub fn from_parts(index: usize, dir: Direction) -> (r: Self)
        ensures
            r.raw == address_byte(index, dir),
            index < 0x80 ==> r.index_part() == index && r.direction_part() == dir,
    {
        let r = EndpointAddress { raw: driver_from_parts(index, dir) };
        proof {
            if index < 0x80 {
                lemma_address_parts(index, dir);
            }
        }
        r
    }

    /// Index part of the address.
    pub fn index(&self) -> (r: usize)
        ensures
            r == self.index_part(),
            r < 0x80,
    {
        let raw: u8 = self.raw;
        assert(raw & 0x7f < 0x80) by (bit_vector);
        driver_index(raw)
    }

    /// Direction part of the address.
    pub fn direction(&self) -> (r: Direction)
        ensures
            r == self.direction_part(),
    {
        driver_direction(self.raw)
    }

    /// Whether the address is that of an IN endpoint.
    pub fn is_in(&self) -> (r: bool)
        ensures
            r == (self.direction_part() is In),
    {
        driver_is_in(self.raw)
    }
}

/// An address that is put together from an index below 128 and a direction falls apart into the
/// same index and direction.
pub proof fn lemma_address_parts(index: usize, dir: Direction)
    requires
        index < 0x80,
    ensures
        ({
            let addr = EndpointAddress { raw: address_byte(index, dir) };
            addr.index_part() == index && addr.direction_part() == dir
        }),
{
    let low = index as u8;
    assert((low | 0x80u8) & 0x7f == low && (low | 0x80u8) & 0x80 != 0 && (low | 0x00u8) & 0x7f
        == low && (low | 0x00u8) & 0x80 == 0) by (bit_vector)
        requires
            low < 0x80,
    ;
}

/// What the USB stack knows of an endpoint.
#[derive(Clone, Copy, Debug, PartialEq, Eq, Structural)]
pub struct EndpointInfo {
    pub addr: EndpointAddress,
    pub ep_type: EndpointType,
    /// Longest packet, in bytes.
    pub max_packet_size: u16,
    /// Polling interval, in milliseconds.
    pub interval_ms: u8,
}

/// An endpoint could not be allocated.
#[derive(Clone, Copy, Debug, PartialEq, Eq, Structural)]
pub struct EndpointAllocError;

/// The driver cannot do what was asked for.
#[derive(Clone, Copy, Debug, PartialEq, Eq, Structural)]
pub struct Unsupported;

/// A transfer failed.
#[derive(Clone, Copy, Debug, PartialEq, Eq, Structural)]
pub enum EndpointError {
    /// The packet does not fit into the buffer that is there for it.
    BufferOverflow,
    /// The endpoint is disabled.
    Disabled,
}

/// What can happen to the bus.
#[derive(Clone, Copy, Debug, PartialEq, Eq, Structural)]
pub enum Event {
    /// The host has reset the bus.
    Reset,
    /// The host has suspended the bus.
    Suspend,
    /// The host has resumed the bus.
    Resume,
    /// Power was found on the bus.
    PowerDetected,
    /// Power has gone from the bus.
    PowerRemoved,
}

} // verus!
