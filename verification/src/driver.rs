//! Setting up the controller and handing out endpoints.
use core::marker::PhantomData;
use crate::buffer::{BufferState, EndpointBuffer, EP_MEMORY_SIZE};
use crate::bus::{Bus, BusState};
use crate::control::ControlPipe;
use crate::endpoint::{Endpoint, EndpointState};
use crate::instance::{Dir, In, Instance, Out};
use crate::ops::{Op, OpList, WakerId, DPRAM_CONTROL_WORDS, REG_WORDS};
use crate::regs::{
    int_ep_active, int_ep_active_word, Reg, EP_CONTROL_DOUBLE_BUFFERED,
    EP_CONTROL_INTERRUPT_PER_BUFF, INT_BUFF_STATUS, INT_BUS_RESET, INT_DEV_RESUME_FROM_HOST,
    INT_DEV_SUSPEND, INT_SETUP_REQ, MAIN_CONTROLLER_EN, MUXING_SOFTCON, MUXING_TO_PHY,
    PWR_VBUS_DETECT, PWR_VBUS_DETECT_OVERRIDE_EN, SIE_CTRL_EP0_INT_1BUF, SIE_CTRL_PULLUP_EN,
};
use crate::types::{
    address_byte, Direction, EndpointAddress, EndpointAllocError, EndpointInfo, EndpointType,
};
use vstd::prelude::*;

verus! {

/// Endpoints in each direction, endpoint 0 included.
pub const EP_COUNT: usize = 16;

/// First address of the endpoint memory that is handed out.
pub const DATA_BUFFERS: u16 = 0x180;

/// Alignment of endpoint buffers.
pub const BUFFER_ALIGN: u16 = 64;

/// What the driver remembers of an endpoint.
#[derive(Clone, Copy, Debug, PartialEq, Eq, Structural)]
pub struct EndpointData {
    /// Only valid if used.
    pub ep_type: EndpointType,
    pub max_packet_size: u16,
    pub used: bool,
    pub double_buffered: bool,
}

/// An endpoint that nobody uses.
pub open spec fn unused_endpoint() -> EndpointData {
    EndpointData {
        ep_type: EndpointType::Bulk,
        max_packet_size: 0,
        used: false,
        double_buffered: false,
    }
}

impl EndpointData {
    /// An endpoint that nobody uses.
    pub fn new() -> (r: Self)
        ensures
            r == unused_endpoint(),
    {
        EndpointData {
            ep_type: EndpointType::Bulk,
            max_packet_size: 0,
            used: false,
            double_buffered: false,
        }
    }

    /// An endpoint in use has a packet size that the controller can handle, and two buffers
    /// exactly where it is a bulk endpoint.
    pub open spec fn wf(self) -> bool {
        self.used ==> packet_size_ok(self.ep_type, self.max_packet_size)
            && self.double_buffered == (self.ep_type is Bulk)
    }
}

/// What is handed out and what is left.
pub struct DriverState {
    pub ep_in: Seq<EndpointData>,
    pub ep_out: Seq<EndpointData>,
    /// First free address in the endpoint memory.
    pub ep_mem_free: u16,
}

impl DriverState {
    /// The endpoints of one direction.
    pub open spec fn side(self, dir: Direction) -> Seq<EndpointData> {
        match dir {
            Direction::Out => self.ep_out,
            Direction::In => self.ep_in,
        }
    }

    /// The same state with other endpoints in one direction and another first free address.
    pub open spec fn with_side(
        self,
        dir: Direction,
        eps: Seq<EndpointData>,
        ep_mem_free: u16,
    ) -> Self {
        match dir {
            Direction::Out => DriverState { ep_out: eps, ep_mem_free, ..self },
            Direction::In => DriverState { ep_in: eps, ep_mem_free, ..self },
        }
    }

    /// Sixteen endpoints in each direction, endpoint 0 not handed out, and an aligned first free
    /// address behind the area of the control pipe and within the memory.
    pub open spec fn wf(self) -> bool {
        &&& endpoints_wf(self.ep_in)
        &&& endpoints_wf(self.ep_out)
        &&& DATA_BUFFERS <= self.ep_mem_free <= EP_MEMORY_SIZE
        &&& self.ep_mem_free % BUFFER_ALIGN == 0
    }
}

/// The endpoints of one direction are well-formed.
pub open spec fn endpoints_wf(eps: Seq<EndpointData>) -> bool {
    &&& eps.len() == EP_COUNT
    &&& !eps[0].used
    &&& forall|i: int| 0 <= i < EP_COUNT ==> (#[trigger] eps[i]).wf()
}

/// The state before any endpoint is handed out.
pub open spec fn initial_state() -> DriverState {
    DriverState {
        ep_in: Seq::new(EP_COUNT as nat, |i: int| unused_endpoint()),
        ep_out: Seq::new(EP_COUNT as nat, |i: int| unused_endpoint()),
        ep_mem_free: DATA_BUFFERS,
    }
}

/// The lowest unused endpoint from `from` on.
pub open spec fn first_unused(eps: Seq<EndpointData>, from: int) -> Option<usize>
    decreases EP_COUNT - from,
{
    if from >= EP_COUNT {
        None
    } else if !eps[from].used {
        Some(from as usize)
    } else {
        first_unused(eps, from + 1)
    }
}

/// The endpoint that a request gets: the one that it names, if that exists and is neither
/// endpoint 0 nor in use, or, where it names none, the lowest unused one but endpoint 0.
pub open spec fn granted_index(
    eps: Seq<EndpointData>,
    ep_addr: Option<EndpointAddress>,
) -> Option<usize> {
    match ep_addr {
        Some(addr) => {
            let n = addr.index_part();
            if 0 < n < EP_COUNT && !eps[n as int].used {
                Some(n)
            } else {
                None
            }
        },
        None => first_unused(eps, 1),
    }
}

/// Packets have up to 64 bytes, those of isochronous endpoints up to 1023.
pub open spec fn packet_size_ok(ep_type: EndpointType, max_packet_size: u16) -> bool {
    max_packet_size <= (if ep_type is Isochronous {
        1023int
    } else {
        64int
    })
}

/// Length of a buffer: the packet size, rounded up to the alignment.
pub open spec fn buffer_len(max_packet_size: u16) -> u16 {
    ((max_packet_size + 63) / 64 * 64) as u16
}

/// Memory that an endpoint takes: two buffers for a bulk endpoint, one for any other.
pub open spec fn footprint(ep_type: EndpointType, max_packet_size: u16) -> int {
    if ep_type is Bulk {
        2 * buffer_len(max_packet_size)
    } else {
        buffer_len(max_packet_size) as int
    }
}

/// A request for an endpoint is granted: there is an endpoint for it, the packet size is one that
/// the controller can handle, and the memory is there.
pub open spec fn alloc_granted(
    d: DriverState,
    dir: Direction,
    ep_type: EndpointType,
    ep_addr: Option<EndpointAddress>,
    max_packet_size: u16,
) -> bool {
    &&& granted_index(d.side(dir), ep_addr) is Some
    &&& packet_size_ok(ep_type, max_packet_size)
    &&& d.ep_mem_free + footprint(ep_type, max_packet_size) <= EP_MEMORY_SIZE
}

/// The state after a request was granted.
pub open spec fn after_alloc(
    d: DriverState,
    dir: Direction,
    ep_type: EndpointType,
    ep_addr: Option<EndpointAddress>,
    max_packet_size: u16,
) -> DriverState {
    let index = granted_index(d.side(dir), ep_addr)->0;
    d.with_side(
        dir,
        d.side(dir).update(
            index as int,
            EndpointData {
                ep_type,
                max_packet_size,
                used: true,
                double_buffered: ep_type is Bulk,
            },
        ),
        (d.ep_mem_free + footprint(ep_type, max_packet_size)) as u16,
    )
}

/// The endpoint that a granted request gets.
pub open spec fn allocated(
    d: DriverState,
    dir: Direction,
    ep_type: EndpointType,
    ep_addr: Option<EndpointAddress>,
    max_packet_size: u16,
    interval_ms: u8,
) -> EndpointState {
    EndpointState {
        info: EndpointInfo {
            addr: EndpointAddress {
                raw: address_byte(granted_index(d.side(dir), ep_addr)->0, dir),
            },
            ep_type,
            max_packet_size,
            interval_ms,
        },
        buf: BufferState {
            addr: d.ep_mem_free,
            len: buffer_len(max_packet_size),
            double_buffered: ep_type is Bulk,
        },
    }
}

/// What comes of a request for an endpoint of direction `dir`: `Ok` exactly where it is granted,
/// and then the endpoint is set up and no longer free; a refusal changes nothing.
pub open spec fn alloc_outcome<'d, T: Instance, D>(
    before: DriverState,
    dir: Direction,
    ep_type: EndpointType,
    ep_addr: Option<EndpointAddress>,
    max_packet_size: u16,
    interval_ms: u8,
    r: Result<Endpoint<'d, T, D>, EndpointAllocError>,
    after: DriverState,
    ops_before: Seq<Op>,
    ops_after: Seq<Op>,
) -> bool {
    match r {
        Ok(ep) => {
            &&& alloc_granted(before, dir, ep_type, ep_addr, max_packet_size)
            &&& after == after_alloc(before, dir, ep_type, ep_addr, max_packet_size)
            &&& ep@ == allocated(before, dir, ep_type, ep_addr, max_packet_size, interval_ms)
            &&& ep@.wf(dir)
            &&& ops_after == ops_before.push(
                Op::Write {
                    reg: ep_control_reg(dir, ep@.index()),
                    value: ep_control_word(ep@.buf.addr, ep_type, ep_type is Bulk),
                },
            )
        },
        Err(_) => {
            &&& !alloc_granted(before, dir, ep_type, ep_addr, max_packet_size)
            &&& after == before
            &&& ops_after == ops_before
        },
    }
}

/// Type field of an endpoint control word.
pub open spec fn type_bits(ep_type: EndpointType) -> u32 {
    match ep_type {
        EndpointType::Control => 0x0000_0000u32,
        EndpointType::Isochronous => 0x0400_0000u32,
        EndpointType::Bulk => 0x0800_0000u32,
        EndpointType::Interrupt => 0x0c00_0000u32,
    }
}

/// The control word of an endpoint that is not enabled yet.
pub open spec fn ep_control_word(
    addr: u16,
    ep_type: EndpointType,
    double_buffered: bool,
) -> u32 {
    (addr as u32) | EP_CONTROL_INTERRUPT_PER_BUFF | type_bits(ep_type) | (if double_buffered {
        EP_CONTROL_DOUBLE_BUFFERED
    } else {
        0
    })
}

/// The control register of endpoint `index`, which is not 0.
pub open spec fn ep_control_reg(dir: Direction, index: usize) -> Reg {
    match dir {
        Direction::Out => Reg::EpOutControl((index - 1) as usize),
        Direction::In => Reg::EpInControl((index - 1) as usize),
    }
}

/// What brings the controller up: all of its state is cleared, then the PHY is connected, VBUS is
/// reported as present and the controller is switched on; the bus task is told last.
pub open spec fn power_up() -> Seq<Op> {
    seq![Op::UnpendInterrupt, Op::EnableInterrupt] + Seq::new(
        REG_WORDS as nat,
        |i: int| Op::ClearRegWord(i as usize),
    ) + Seq::new(DPRAM_CONTROL_WORDS as nat, |i: int| Op::ClearDpramWord(i as usize)) + seq![
        Op::Write { reg: Reg::UsbMuxing, value: MUXING_TO_PHY | MUXING_SOFTCON },
        Op::Write { reg: Reg::UsbPwr, value: PWR_VBUS_DETECT | PWR_VBUS_DETECT_OVERRIDE_EN },
        Op::Write { reg: Reg::MainCtrl, value: MAIN_CONTROLLER_EN },
        Op::Wake(WakerId::Bus),
    ]
}

/// What starts the device: the interrupts are enabled and the host is told that a device is there.
pub open spec fn start_up() -> Seq<Op> {
    seq![
        Op::Write {
            reg: Reg::Inte,
            value: INT_BUS_RESET | INT_BUFF_STATUS | INT_DEV_RESUME_FROM_HOST | INT_DEV_SUSPEND
                | INT_SETUP_REQ,
        },
        Op::Write { reg: Reg::IntEpCtrl, value: int_ep_active_word(0xfffe) },
        Op::Write { reg: Reg::SieCtrl, value: SIE_CTRL_EP0_INT_1BUF | SIE_CTRL_PULLUP_EN },
    ]
}

/// USB driver handle.
pub struct Driver<'d, T: Instance> {
    phantom: PhantomData<&'d mut T>,
    ep_in: [EndpointData; EP_COUNT],
    ep_out: [EndpointData; EP_COUNT],
    // first free address in EP mem, in bytes.
    ep_mem_free: u16,
}

impl<'d, T: Instance> Driver<'d, T> {
    pub closed spec fn view(&self) -> DriverState {
        DriverState {
            ep_in: self.ep_in@,
            ep_out: self.ep_out@,
            ep_mem_free: self.ep_mem_free,
        }
    }

    /// Create a new USB driver.
    pub fn new(ops: &mut OpList) -> (r: Self)
        requires
            old(ops).has_room(109),
        ensures
            r@ == initial_state(),
            r@.wf(),
            final(ops).wf(),
            final(ops)@ == old(ops)@ + power_up(),
    {
        ops.push(Op::UnpendInterrupt);
        ops.push(Op::EnableInterrupt);
        let ghost head = old(ops)@ + seq![Op::UnpendInterrupt, Op::EnableInterrupt];
        assert(ops@ =~= head);
        let mut i: usize = 0;
        while i < REG_WORDS
            invariant
                i <= REG_WORDS,
                ops.wf(),
                head.len() + 107 <= crate::ops::OP_CAPACITY,
                ops@ == head + Seq::new(i as nat, |j: int| Op::ClearRegWord(j as usize)),
            decreases REG_WORDS - i,
        {
            ops.push(Op::ClearRegWord(i));
            i = i + 1;
            assert(ops@ =~= head + Seq::new(i as nat, |j: int| Op::ClearRegWord(j as usize)));
        }
        let ghost mid = ops@;
        let mut i: usize = 0;
        while i < DPRAM_CONTROL_WORDS
            invariant
                i <= DPRAM_CONTROL_WORDS,
                ops.wf(),
                mid.len() + 68 <= crate::ops::OP_CAPACITY,
                ops@ == mid + Seq::new(i as nat, |j: int| Op::ClearDpramWord(j as usize)),
            decreases DPRAM_CONTROL_WORDS - i,
        {
            ops.push(Op::ClearDpramWord(i));
            i = i + 1;
            assert(ops@ =~= mid + Seq::new(i as nat, |j: int| Op::ClearDpramWord(j as usize)));
        }
        ops.push(Op::Write { reg: Reg::UsbMuxing, value: MUXING_TO_PHY | MUXING_SOFTCON });
        ops.push(
            Op::Write {
                reg: Reg::UsbPwr,
                value: PWR_VBUS_DETECT | PWR_VBUS_DETECT_OVERRIDE_EN,
            },
        );
        ops.push(Op::Write { reg: Reg::MainCtrl, value: MAIN_CONTROLLER_EN });
        // Initialize the bus so that it signals that power is available
        ops.push(Op::Wake(WakerId::Bus));
        assert(ops@ =~= old(ops)@ + power_up());
        let r = Driver {
            phantom: PhantomData,
            ep_in: [EndpointData::new(); EP_COUNT],
            ep_out: [EndpointData::new(); EP_COUNT],
            ep_mem_free: DATA_BUFFERS,
        };
        assert(r@.ep_in =~= initial_state().ep_in);
        assert(r@.ep_out =~= initial_state().ep_out);
        r
    }

    /// Hands out an endpoint of direction `D`.
    ///
    /// A bulk endpoint gets two buffers to improve throughput. The endpoint is set up but not
    /// enabled.
    pub fn alloc_endpoint<D: Dir>(
        &mut self,
        ops: &mut OpList,
        ep_type: EndpointType,
        ep_addr: Option<EndpointAddress>,
        max_packet_size: u16,
        interval_ms: u8,
    ) -> (r: Result<Endpoint<'d, T, D>, EndpointAllocError>)
        requires
            old(self)@.wf(),
            old(ops).has_room(1),
        ensures
            final(self)@.wf(),
            final(ops).wf(),
            alloc_outcome(
                old(self)@,
                D::direction(),
                ep_type,
                ep_addr,
                max_packet_size,
                interval_ms,
                r,
                final(self)@,
                old(ops)@,
                final(ops)@,
            ),
    {
        // Enable double buffering for bulk endpoints to improve throughput.
        // Control endpoints don't benefit from double buffering.
        // Interrupt endpoints typically have small, infrequent transfers.
        // Isochronous could benefit but requires special offset handling.
        let double_buffered = ep_type == EndpointType::Bulk;
        let ghost eps = self@.side(D::direction());

        let index: usize = match ep_addr {
            Some(addr) => {
                // Use the specified endpoint address
                let requested_index: usize = addr.index();
                if requested_index == 0 || requested_index >= EP_COUNT {
                    return Err(EndpointAllocError);
                }
                if self.data(D::dir(), requested_index).used {
                    return Err(EndpointAllocError);
                }
                requested_index
            },
            None => {
                // Find any available endpoint; endpoint 0 is reserved for the control pipe
                let mut i: usize = 1;
                while i < EP_COUNT && self.data(D::dir(), i).used
                    invariant
                        1 <= i <= EP_COUNT,
                        self@.wf(),
                        eps == self@.side(D::direction()),
                        first_unused(eps, 1) == first_unused(eps, i as int),
                    decreases EP_COUNT - i,
                {
                    i = i + 1;
                }
                if i >= EP_COUNT {
                    return Err(EndpointAllocError);
                }
                i
            },
        };

        // The maximum buffer size is 64, except for isochronous endpoints, which are allowed to
        // be up to 1023 bytes.
        if (ep_type != EndpointType::Isochronous && max_packet_size > 64) || max_packet_size > 1023
        {
            return Err(EndpointAllocError);
        }

        // ep mem addrs must be 64-byte aligned, so there's no point in trying
        // to allocate smaller chunks to save memory.
        let len: u16 = (max_packet_size + 63) / 64 * 64;

        // For double buffering, allocate space for two buffers.
        let total_len: u16 = if double_buffered {
            len * 2
        } else {
            len
        };

        let addr: u16 = self.ep_mem_free;
        if addr + total_len > EP_MEMORY_SIZE as u16 {
            return Err(EndpointAllocError);
        }
        self.ep_mem_free = addr + total_len;

        let buf = if double_buffered {
            EndpointBuffer::new_double_buffered(addr, len)
        } else {
            EndpointBuffer::new(addr, len)
        };

        let data = EndpointData { ep_type, max_packet_size, used: true, double_buffered };
        let reg = match D::dir() {
            Direction::Out => {
                self.ep_out[index] = data;
                Reg::EpOutControl(index - 1)
            },
            Direction::In => {
                self.ep_in[index] = data;
                Reg::EpInControl(index - 1)
            },
        };
        ops.push(Op::Write { reg, value: Self::ep_control(addr, ep_type, double_buffered) });

        let info = EndpointInfo {
            addr: EndpointAddress::from_parts(index, D::dir()),
            ep_type,
            max_packet_size,
            interval_ms,
        };
        Ok(Endpoint::new(info, buf))
    }

    /// Allocates an IN endpoint.
    pub fn alloc_endpoint_in(
        &mut self,
        ops: &mut OpList,
        ep_type: EndpointType,
        ep_addr: Option<EndpointAddress>,
        max_packet_size: u16,
        interval_ms: u8,
    ) -> (r: Result<Endpoint<'d, T, In>, EndpointAllocError>)
        requires
            old(self)@.wf(),
            old(ops).has_room(1),
        ensures
            final(self)@.wf(),
            final(ops).wf(),
            alloc_outcome(
                old(self)@,
                Direction::In,
                ep_type,
                ep_addr,
                max_packet_size,
                interval_ms,
                r,
                final(self)@,
                old(ops)@,
                final(ops)@,
            ),
    {
        self.alloc_endpoint(ops, ep_type, ep_addr, max_packet_size, interval_ms)
    }

    /// Allocates an OUT endpoint.
    pub fn alloc_endpoint_out(
        &mut self,
        ops: &mut OpList,
        ep_type: EndpointType,
        ep_addr: Option<EndpointAddress>,
        max_packet_size: u16,
        interval_ms: u8,
    ) -> (r: Result<Endpoint<'d, T, Out>, EndpointAllocError>)
        requires
            old(self)@.wf(),
            old(ops).has_room(1),
        ensures
            final(self)@.wf(),
            final(ops).wf(),
            alloc_outcome(
                old(self)@,
                Direction::Out,
                ep_type,
                ep_addr,
                max_packet_size,
                interval_ms,
                r,
                final(self)@,
                old(ops)@,
                final(ops)@,
            ),
    {
        self.alloc_endpoint(ops, ep_type, ep_addr, max_packet_size, interval_ms)
    }

    fn data(&self, dir: Direction, index: usize) -> (r: EndpointData)
        requires
            index < EP_COUNT,
        ensures
            r == self@.side(dir)[index as int],
    {
        match dir {
            Direction::Out => self.ep_out[index],
            Direction::In => self.ep_in[index],
        }
    }

    fn ep_control(addr: u16, ep_type: EndpointType, double_buffered: bool) -> (r: u32)
        ensures
            r == ep_control_word(addr, ep_type, double_buffered),
    {
        let ep_type_bits: u32 = match ep_type {
            EndpointType::Bulk => 0x0800_0000,
            EndpointType::Control => 0x0000_0000,
            EndpointType::Interrupt => 0x0c00_0000,
            EndpointType::Isochronous => 0x0400_0000,
        };
        let double_bit: u32 = if double_buffered {
            EP_CONTROL_DOUBLE_BUFFERED
        } else {
            0
        };
        addr as u32 | EP_CONTROL_INTERRUPT_PER_BUFF | ep_type_bits | double_bit
    }

    /// Start operation: enables the interrupts and connects to the host.
    ///
    /// This consumes the driver, so no more endpoints can be allocated.
    pub fn start(self, ops: &mut OpList, control_max_packet_size: u16) -> (r: (
        Bus<'d, T>,
        ControlPipe<'d, T>,
    ))
        requires
            self@.wf(),
            old(ops).has_room(3),
        ensures
            r.0@ == (BusState { inited: false, ep_in: self@.ep_in, ep_out: self@.ep_out }),
            r.0@.wf(),
            r.1@ == control_max_packet_size,
            final(ops).wf(),
            final(ops)@ == old(ops)@ + start_up(),
    {
        ops.push(
            Op::Write {
                reg: Reg::Inte,
                value: INT_BUS_RESET | INT_BUFF_STATUS | INT_DEV_RESUME_FROM_HOST
                    | INT_DEV_SUSPEND | INT_SETUP_REQ,
            },
        );
        // all EPs
        ops.push(Op::Write { reg: Reg::IntEpCtrl, value: int_ep_active(0xfffe) });
        ops.push(
            Op::Write { reg: Reg::SieCtrl, value: SIE_CTRL_EP0_INT_1BUF | SIE_CTRL_PULLUP_EN },
        );
        assert(ops@ =~= old(ops)@ + start_up());
        (Bus::new(self.ep_in, self.ep_out), ControlPipe::new(control_max_packet_size))
    }
}

} // verus!
