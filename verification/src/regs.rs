//! The registers of the USB controller and the words that the driver puts into them.
use vstd::prelude::*;

verus! {

/// A register of the controller or of its dual-port memory.
///
/// Endpoint 0 has no control register, so `EpInControl(n)` and `EpOutControl(n)` belong to
/// endpoint `n + 1`; the buffer control registers are numbered like the endpoints.
#[derive(Clone, Copy, Debug, PartialEq, Eq, Structural)]
pub enum Reg {
    AddrEndp,
    MainCtrl,
    SieCtrl,
    SieStatus,
    IntEpCtrl,
    BuffStatus,
    BuffCpuShouldHandle,
    EpStallArm,
    UsbMuxing,
    UsbPwr,
    Intr,
    Inte,
    Ints,
    EpInControl(usize),
    EpOutControl(usize),
    EpInBufferControl(usize),
    EpOutBufferControl(usize),
}

/// Where a register lies: the number of its word in the register block of the controller or in the
/// dual-port memory.
#[derive(Clone, Copy, Debug, PartialEq, Eq, Structural)]
pub enum Place {
    Controller(usize),
    Dpram(usize),
}

impl Reg {
    /// The register exists: there are sixteen endpoints in each direction.
    pub open spec fn valid(self) -> bool {
        match self {
            Reg::EpInControl(n) => n < 15,
            Reg::EpOutControl(n) => n < 15,
            Reg::EpInBufferControl(n) => n < 16,
            Reg::EpOutBufferControl(n) => n < 16,
            _ => true,
        }
    }

    /// Where the register lies.
    pub open spec fn location(self) -> Place {
        match self {
            Reg::AddrEndp => Place::Controller(0),
            Reg::MainCtrl => Place::Controller(16),
            Reg::SieCtrl => Place::Controller(19),
            Reg::SieStatus => Place::Controller(20),
            Reg::IntEpCtrl => Place::Controller(21),
            Reg::BuffStatus => Place::Controller(22),
            Reg::BuffCpuShouldHandle => Place::Controller(23),
            Reg::EpStallArm => Place::Controller(26),
            Reg::UsbMuxing => Place::Controller(29),
            Reg::UsbPwr => Place::Controller(30),
            Reg::Intr => Place::Controller(35),
            Reg::Inte => Place::Controller(36),
            Reg::Ints => Place::Controller(38),
            Reg::EpInControl(n) => Place::Dpram((2 + 2 * n) as usize),
            Reg::EpOutControl(n) => Place::Dpram((3 + 2 * n) as usize),
            Reg::EpInBufferControl(n) => Place::Dpram((32 + 2 * n) as usize),
            Reg::EpOutBufferControl(n) => Place::Dpram((33 + 2 * n) as usize),
        }
    }

    /// Where the register lies.
    pub fn place(&self) -> (r: Place)
        requires
            self.valid(),
        ensures
            r == self.location(),
    {
        match *self {
            Reg::AddrEndp => Place::Controller(0),
            Reg::MainCtrl => Place::Controller(16),
            Reg::SieCtrl => Place::Controller(19),
            Reg::SieStatus => Place::Controller(20),
            Reg::IntEpCtrl => Place::Controller(21),
            Reg::BuffStatus => Place::Controller(22),
            Reg::BuffCpuShouldHandle => Place::Controller(23),
            Reg::EpStallArm => Place::Controller(26),
            Reg::UsbMuxing => Place::Controller(29),
            Reg::UsbPwr => Place::Controller(30),
            Reg::Intr => Place::Controller(35),
            Reg::Inte => Place::Controller(36),
            Reg::Ints => Place::Controller(38),
            Reg::EpInControl(n) => Place::Dpram(2 + 2 * n),
            Reg::EpOutControl(n) => Place::Dpram(3 + 2 * n),
            Reg::EpInBufferControl(n) => Place::Dpram(32 + 2 * n),
            Reg::EpOutBufferControl(n) => Place::Dpram(33 + 2 * n),
        }
    }
}

/// The register at a place, if the driver uses one that lies there.
pub open spec fn reg_at(place: Place) -> Option<Reg> {
    match place {
        Place::Controller(0) => Some(Reg::AddrEndp),
        Place::Controller(16) => Some(Reg::MainCtrl),
        Place::Controller(19) => Some(Reg::SieCtrl),
        Place::Controller(20) => Some(Reg::SieStatus),
        Place::Controller(21) => Some(Reg::IntEpCtrl),
        Place::Controller(22) => Some(Reg::BuffStatus),
        Place::Controller(23) => Some(Reg::BuffCpuShouldHandle),
        Place::Controller(26) => Some(Reg::EpStallArm),
        Place::Controller(29) => Some(Reg::UsbMuxing),
        Place::Controller(30) => Some(Reg::UsbPwr),
        Place::Controller(35) => Some(Reg::Intr),
        Place::Controller(36) => Some(Reg::Inte),
        Place::Controller(38) => Some(Reg::Ints),
        Place::Controller(_) => None,
        Place::Dpram(n) => if n < 2 || n >= 64 {
            None
        } else if n < 32 && n % 2 == 0 {
            Some(Reg::EpInControl(((n - 2) / 2) as usize))
        } else if n < 32 {
            Some(Reg::EpOutControl(((n - 3) / 2) as usize))
        } else if n % 2 == 0 {
            Some(Reg::EpInBufferControl(((n - 32) / 2) as usize))
        } else {
            Some(Reg::EpOutBufferControl(((n - 33) / 2) as usize))
        },
    }
}

/// `USB_MUXING`: connect the controller to the on-chip PHY.
pub const MUXING_TO_PHY: u32 = 0x0000_0001;

/// `USB_MUXING`: let the controller drive the soft-connect signal.
pub const MUXING_SOFTCON: u32 = 0x0000_0008;

/// `USB_PWR`: the value that the VBUS detect override reports.
pub const PWR_VBUS_DETECT: u32 = 0x0000_0004;

/// `USB_PWR`: override the VBUS detect signal.
pub const PWR_VBUS_DETECT_OVERRIDE_EN: u32 = 0x0000_0008;

/// `MAIN_CTRL`: switch the controller on.
pub const MAIN_CONTROLLER_EN: u32 = 0x0000_0001;

/// `SIE_CTRL`: report every finished buffer of endpoint 0.
pub const SIE_CTRL_EP0_INT_1BUF: u32 = 0x2000_0000;

/// `SIE_CTRL`: pull up D+, which tells the host that a device is there.
pub const SIE_CTRL_PULLUP_EN: u32 = 0x0001_0000;

/// `SIE_STATUS`: the bus is suspended.
pub const SIE_STATUS_SUSPENDED: u32 = 0x0000_0010;

/// `SIE_STATUS`: the host has resumed the bus.
pub const SIE_STATUS_RESUME: u32 = 0x0000_0800;

/// `SIE_STATUS`: a SETUP packet was received.
pub const SIE_STATUS_SETUP_REC: u32 = 0x0002_0000;

/// `SIE_STATUS`: the host has reset the bus.
pub const SIE_STATUS_BUS_RESET: u32 = 0x0008_0000;

/// `INTR`, `INTE`, `INTS`: some buffer is done.
pub const INT_BUFF_STATUS: u32 = 0x0000_0010;

/// `INTR`, `INTE`, `INTS`: bus reset.
pub const INT_BUS_RESET: u32 = 0x0000_1000;

/// `INTR`, `INTE`, `INTS`: the bus went into or out of suspend.
pub const INT_DEV_SUSPEND: u32 = 0x0000_4000;

/// `INTR`, `INTE`, `INTS`: the host has resumed the bus.
pub const INT_DEV_RESUME_FROM_HOST: u32 = 0x0000_8000;

/// `INTR`, `INTE`, `INTS`: a SETUP packet was received.
pub const INT_SETUP_REQ: u32 = 0x0001_0000;

/// `EP_STALL_ARM`: let endpoint 0 IN answer with a STALL.
pub const STALL_ARM_EP0_IN: u32 = 0x0000_0001;

/// `EP_STALL_ARM`: let endpoint 0 OUT answer with a STALL.
pub const STALL_ARM_EP0_OUT: u32 = 0x0000_0002;

/// Endpoint control: the endpoint takes part in transfers.
pub const EP_CONTROL_ENABLE: u32 = 0x8000_0000;

/// Endpoint control: the endpoint has two buffers.
pub const EP_CONTROL_DOUBLE_BUFFERED: u32 = 0x4000_0000;

/// Endpoint control: report every finished buffer.
pub const EP_CONTROL_INTERRUPT_PER_BUFF: u32 = 0x2000_0000;

/// Buffer control: answer with a STALL.
pub const BUFFER_CONTROL_STALL: u32 = 0x0000_0800;

/// At least one bit of `mask` is set in `word`.
pub open spec fn any_set(word: u32, mask: u32) -> bool {
    word & mask != 0
}

/// Whether `word` has a bit of `mask` set.
pub fn is_set(word: u32, mask: u32) -> (r: bool)
    ensures
        r == any_set(word, mask),
{
    word & mask != 0
}

/// `old_word` with the bits of `mask` replaced by those of `value`.
pub open spec fn merged(old_word: u32, mask: u32, value: u32) -> u32 {
    (old_word & !mask) | (value & mask)
}

/// The word that a read-modify-write leaves in a register that held `old_word`.
pub fn merge(old_word: u32, mask: u32, value: u32) -> (r: u32)
    ensures
        r == merged(old_word, mask, value),
{
    (old_word & !mask) | (value & mask)
}

/// Bit `2 * n` belongs to endpoint `n` IN in `BUFF_STATUS` and in `BUFF_CPU_SHOULD_HANDLE`.
pub open spec fn ep_in_bit(word: u32, n: int) -> bool {
    (word >> ((2 * n) as u32)) & 1 == 1
}

/// Bit `2 * n + 1` belongs to endpoint `n` OUT in `BUFF_STATUS` and in `BUFF_CPU_SHOULD_HANDLE`.
pub open spec fn ep_out_bit(word: u32, n: int) -> bool {
    (word >> ((2 * n + 1) as u32)) & 1 == 1
}

/// The bit of endpoint `n` IN.
pub fn ep_in(word: u32, n: usize) -> (r: bool)
    requires
        n < 16,
    ensures
        r == ep_in_bit(word, n as int),
{
    (word >> (2 * n as u32)) & 1 == 1
}

/// The bit of endpoint `n` OUT.
pub fn ep_out(word: u32, n: usize) -> (r: bool)
    requires
        n < 16,
    ensures
        r == ep_out_bit(word, n as int),
{
    (word >> (2 * n as u32 + 1)) & 1 == 1
}

/// The `INT_EP_CTRL` word whose 15-bit field, which starts at bit 1, holds `active`; what does not
/// fit into the field is dropped.
pub open spec fn int_ep_active_word(active: u16) -> u32 {
    ((active & 0x7fff) as u32) << 1
}

/// Fills the field of `INT_EP_CTRL`.
pub fn int_ep_active(active: u16) -> (r: u32)
    ensures
        r == int_ep_active_word(active),
{
    ((active & 0x7fff) as u32) << 1
}

/// The `ADDR_ENDP` word with the 7-bit device address `addr`.
pub open spec fn address_word(addr: u8) -> u32 {
    (addr & 0x7f) as u32
}

/// Fills the address field of `ADDR_ENDP`.
pub fn address(addr: u8) -> (r: u32)
    ensures
        r == address_word(addr),
{
    (addr & 0x7f) as u32
}

} // verus!
