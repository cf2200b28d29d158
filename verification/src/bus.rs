//! The bus: what happened on it, and switching endpoints on, off and into a stall.
use core::marker::PhantomData;
use crate::buffer::{control_word, single_word, stall_at, DoubleBufConfig, EpBufferControl};
use crate::driver::{endpoints_wf, ep_control_reg, EndpointData, EP_COUNT};
use crate::instance::Instance;
use crate::ops::{handoff, push_handoff, Next, Op, OpList, Request, WakerId};
use crate::regs::{
    address, address_word, any_set, is_set, Reg, BUFFER_CONTROL_STALL, EP_CONTROL_ENABLE,
    INT_BUS_RESET, INT_DEV_RESUME_FROM_HOST, INT_DEV_SUSPEND, SIE_STATUS_BUS_RESET,
    SIE_STATUS_RESUME, SIE_STATUS_SETUP_REC, SIE_STATUS_SUSPENDED, STALL_ARM_EP0_IN,
    STALL_ARM_EP0_OUT,
};
use crate::types::{Direction, EndpointAddress, Event, Unsupported};
use vstd::prelude::*;

verus! {

/// What the bus knows.
pub struct BusState {
    /// Power was reported.
    pub inited: bool,
    pub ep_in: Seq<EndpointData>,
    pub ep_out: Seq<EndpointData>,
}

impl BusState {
    /// The endpoints of both directions are well-formed.
    pub open spec fn wf(self) -> bool {
        endpoints_wf(self.ep_in) && endpoints_wf(self.ep_out)
    }
}

/// How far a poll of the bus has come.
#[derive(Clone, Copy, Debug, PartialEq, Eq, Structural)]
pub enum PollState {
    /// The task is polled.
    Begin,
    /// The word of `SIE_STATUS` is due.
    Status,
    /// The word of `INTR` is due; that of `SIE_STATUS` is kept.
    Interrupts(u32),
}

/// The event that the status words tell of: a resume before a reset before a suspend.
pub open spec fn bus_event(siestatus: u32, intrstatus: u32) -> Option<Event> {
    if any_set(siestatus, SIE_STATUS_RESUME) || any_set(intrstatus, INT_DEV_RESUME_FROM_HOST) {
        Some(Event::Resume)
    } else if any_set(siestatus, SIE_STATUS_BUS_RESET) {
        Some(Event::Reset)
    } else if any_set(siestatus, SIE_STATUS_SUSPENDED) && any_set(intrstatus, INT_DEV_SUSPEND) {
        Some(Event::Suspend)
    } else {
        None
    }
}

/// All endpoints but endpoint 0 are disabled, in both directions.
pub open spec fn disable_all() -> Seq<Op> {
    Seq::new(
        30,
        |k: int|
            Op::Modify {
                reg: if k % 2 == 0 {
                    Reg::EpInControl((k / 2) as usize)
                } else {
                    Reg::EpOutControl((k / 2) as usize)
                },
                mask: EP_CONTROL_ENABLE,
                value: 0,
            },
    )
}

/// What follows from a bus reset: it is acknowledged, pending packets are dropped, the device has
/// address 0 again, its endpoints are disabled, and whoever waits on one of them is woken.
pub open spec fn reset_ops() -> Seq<Op> {
    seq![
        Op::Write { reg: Reg::SieStatus, value: SIE_STATUS_BUS_RESET | SIE_STATUS_SETUP_REC },
        Op::Write { reg: Reg::BuffStatus, value: 0xffff_ffff },
        Op::Write { reg: Reg::AddrEndp, value: address_word(0) },
    ] + disable_all() + Seq::new(EP_COUNT as nat, |i: int| Op::Wake(WakerId::In(i as usize)))
        + Seq::new(EP_COUNT as nat, |i: int| Op::Wake(WakerId::Out(i as usize)))
}

/// What is done about an event, or, without one, before the task goes to sleep.
pub open spec fn event_response(event: Option<Event>) -> Seq<Op> {
    match event {
        Some(Event::Resume) => seq![Op::Write { reg: Reg::SieStatus, value: SIE_STATUS_RESUME }],
        Some(Event::Reset) => reset_ops(),
        Some(Event::Suspend) => seq![
            Op::Write { reg: Reg::SieStatus, value: SIE_STATUS_SUSPENDED },
        ],
        Some(_) => Seq::empty(),
        // no pending event. Reenable all irqs.
        None => seq![
            Op::SetBits {
                reg: Reg::Inte,
                value: INT_BUS_RESET | INT_DEV_RESUME_FROM_HOST | INT_DEV_SUSPEND,
            },
        ],
    }
}

/// A step of a poll.
pub open spec fn poll_next(b: BusState, st: PollState, input: u32) -> Next<PollState, Event> {
    match st {
        PollState::Begin => if b.inited {
            Next {
                ops: seq![Op::Register(WakerId::Bus)],
                request: Request::Read(Reg::SieStatus),
                state: PollState::Status,
            }
        } else {
            Next {
                ops: seq![Op::Register(WakerId::Bus)],
                request: Request::Ready(Event::PowerDetected),
                state: PollState::Begin,
            }
        },
        PollState::Status => Next {
            ops: Seq::empty(),
            request: Request::Read(Reg::Intr),
            state: PollState::Interrupts(input),
        },
        PollState::Interrupts(siestatus) => Next {
            ops: event_response(bus_event(siestatus, input)),
            request: match bus_event(siestatus, input) {
                Some(event) => Request::Ready(event),
                None => Request::Pending,
            },
            state: PollState::Begin,
        },
    }
}

/// The register that holds the buffer control word of an endpoint.
pub open spec fn buffer_control_reg(dir: Direction, index: usize) -> Reg {
    match dir {
        Direction::Out => Reg::EpOutBufferControl(index),
        Direction::In => Reg::EpInBufferControl(index),
    }
}

/// The waker of an endpoint.
pub open spec fn endpoint_waker(dir: Direction, index: usize) -> WakerId {
    match dir {
        Direction::Out => WakerId::Out(index),
        Direction::In => WakerId::In(index),
    }
}

/// `mask` where `on`, no bit where not.
pub open spec fn masked(on: bool, mask: u32) -> u32 {
    if on {
        mask
    } else {
        0
    }
}

/// What sets or clears the stall of an endpoint; endpoint 0 has to be armed for it as well.
pub open spec fn stall_ops(addr: EndpointAddress, stalled: bool) -> Seq<Op> {
    let n = addr.index_part();
    let dir = addr.direction_part();
    let arm = match dir {
        Direction::Out => STALL_ARM_EP0_OUT,
        Direction::In => STALL_ARM_EP0_IN,
    };
    (if n == 0 {
        seq![Op::Modify { reg: Reg::EpStallArm, mask: arm, value: masked(stalled, arm) }]
    } else {
        Seq::empty()
    }) + seq![
        Op::Modify {
            reg: buffer_control_reg(dir, n),
            mask: BUFFER_CONTROL_STALL,
            value: masked(stalled, BUFFER_CONTROL_STALL),
        },
        Op::Wake(endpoint_waker(dir, n)),
    ]
}

/// How far a look at the stall bit has come.
#[derive(Clone, Copy, Debug, PartialEq, Eq, Structural)]
pub enum StallState {
    /// Nothing was done yet.
    Begin,
    /// The buffer control word is due.
    Sample,
}

/// A step of a look at the stall bit.
pub open spec fn is_stalled_next(
    addr: EndpointAddress,
    st: StallState,
    input: u32,
) -> Next<StallState, bool> {
    match st {
        StallState::Begin => Next {
            ops: Seq::empty(),
            request: Request::Read(buffer_control_reg(addr.direction_part(), addr.index_part())),
            state: StallState::Sample,
        },
        StallState::Sample => Next {
            ops: Seq::empty(),
            request: Request::Ready(stall_at(input)),
            state: StallState::Begin,
        },
    }
}

/// An empty buffer for a packet of up to `length` bytes with the given PID.
pub open spec fn room_for(pid: bool, length: u16) -> DoubleBufConfig {
    DoubleBufConfig { pid, length, available: false, full: false }
}

/// The buffer control word of an IN endpoint that has sent nothing: the PID of a buffer is flipped
/// before each packet, so buffer 0 starts with DATA0 and buffer 1 with DATA1.
pub open spec fn fresh_in_word() -> u32 {
    control_word(room_for(true, 0), room_for(false, 0))
}

/// The two buffer control words that make all buffers of an OUT endpoint available: buffer 0
/// expects DATA0, buffer 1, if there is one, expects DATA1.
pub open spec fn fresh_out_words(data: EndpointData) -> (u32, u32) {
    let b0 = room_for(false, data.max_packet_size);
    let b1 = room_for(true, data.max_packet_size);
    if data.double_buffered {
        (control_word(b0, b1), control_word(b0.with_available(true), b1.with_available(true)))
    } else {
        (single_word(b0), single_word(b0.with_available(true)))
    }
}

/// What enables or disables an endpoint; endpoint 0 is left alone.
pub open spec fn enable_ops(b: BusState, addr: EndpointAddress, enabled: bool) -> Seq<Op> {
    let n = addr.index_part();
    let dir = addr.direction_part();
    if n == 0 {
        Seq::empty()
    } else {
        seq![
            Op::Modify {
                reg: ep_control_reg(dir, n),
                mask: EP_CONTROL_ENABLE,
                value: masked(enabled, EP_CONTROL_ENABLE),
            },
        ] + (match dir {
            Direction::In => seq![
                Op::Write { reg: Reg::EpInBufferControl(n), value: fresh_in_word() },
            ],
            Direction::Out => {
                let words = fresh_out_words(b.ep_out[n as int]);
                handoff(Reg::EpOutBufferControl(n), words.0, words.1)
            },
        }) + seq![Op::Wake(endpoint_waker(dir, n))]
    }
}

/// Type representing the RP USB bus.
pub struct Bus<'d, T: Instance> {
    phantom: PhantomData<&'d mut T>,
    ep_in: [EndpointData; EP_COUNT],
    ep_out: [EndpointData; EP_COUNT],
    inited: bool,
}

impl<'d, T: Instance> Bus<'d, T> {
    pub closed spec fn view(&self) -> BusState {
        BusState { inited: self.inited, ep_in: self.ep_in@, ep_out: self.ep_out@ }
    }

    pub(crate) fn new(
        ep_in: [EndpointData; EP_COUNT],
        ep_out: [EndpointData; EP_COUNT],
    ) -> (r: Self)
        ensures
            r@ == (BusState { inited: false, ep_in: ep_in@, ep_out: ep_out@ }),
    {
        Bus { phantom: PhantomData, ep_in, ep_out, inited: false }
    }

    /// A step of waiting for an event of the bus; the first event is that there is power.
    pub fn poll(&mut self, st: &mut PollState, input: u32, ops: &mut OpList) -> (r: Request<Event>)
        requires
            old(ops).has_room(65),
        ensures
            final(ops).wf(),
            r.valid(),
            final(ops)@ == old(ops)@ + poll_next(old(self)@, *old(st), input).ops,
            r == poll_next(old(self)@, *old(st), input).request,
            *final(st) == poll_next(old(self)@, *old(st), input).state,
            final(self)@ == (BusState {
                inited: old(self)@.inited || *old(st) is Begin,
                ..old(self)@
            }),
    {
        match *st {
            PollState::Begin => {
                ops.push(Op::Register(WakerId::Bus));
                assert(ops@ =~= old(ops)@ + seq![Op::Register(WakerId::Bus)]);
                // VBUS detection is overridden, so power is there from the start.
                if !self.inited {
                    self.inited = true;
                    Request::Ready(Event::PowerDetected)
                } else {
                    *st = PollState::Status;
                    Request::Read(Reg::SieStatus)
                }
            },
            PollState::Status => {
                *st = PollState::Interrupts(input);
                assert(ops@ =~= old(ops)@ + Seq::<Op>::empty());
                Request::Read(Reg::Intr)
            },
            PollState::Interrupts(siestatus) => {
                let intrstatus: u32 = input;
                *st = PollState::Begin;
                if is_set(siestatus, SIE_STATUS_RESUME) || is_set(
                    intrstatus,
                    INT_DEV_RESUME_FROM_HOST,
                ) {
                    ops.push(Op::Write { reg: Reg::SieStatus, value: SIE_STATUS_RESUME });
                    assert(ops@ =~= old(ops)@ + event_response(Some(Event::Resume)));
                    return Request::Ready(Event::Resume);
                }
                if is_set(siestatus, SIE_STATUS_BUS_RESET) {
                    Self::reset(ops);
                    return Request::Ready(Event::Reset);
                }
                if is_set(siestatus, SIE_STATUS_SUSPENDED) && is_set(intrstatus, INT_DEV_SUSPEND) {
                    ops.push(Op::Write { reg: Reg::SieStatus, value: SIE_STATUS_SUSPENDED });
                    assert(ops@ =~= old(ops)@ + event_response(Some(Event::Suspend)));
                    return Request::Ready(Event::Suspend);
                }
                // no pending event. Reenable all irqs.
                ops.push(
                    Op::SetBits {
                        reg: Reg::Inte,
                        value: INT_BUS_RESET | INT_DEV_RESUME_FROM_HOST | INT_DEV_SUSPEND,
                    },
                );
                assert(ops@ =~= old(ops)@ + event_response(None));
                Request::Pending
            },
        }
    }

    fn reset(ops: &mut OpList)
        requires
            old(ops).has_room(65),
        ensures
            final(ops).wf(),
            final(ops)@ == old(ops)@ + reset_ops(),
    {
        ops.push(
            Op::Write {
                reg: Reg::SieStatus,
                value: SIE_STATUS_BUS_RESET | SIE_STATUS_SETUP_REC,
            },
        );
        ops.push(Op::Write { reg: Reg::BuffStatus, value: 0xffff_ffff });
        ops.push(Op::Write { reg: Reg::AddrEndp, value: address(0) });
        let ghost head = ops@;
        let mut i: usize = 1;
        while i < EP_COUNT
            invariant
                1 <= i <= EP_COUNT,
                ops.wf(),
                head.len() + 62 <= crate::ops::OP_CAPACITY,
                ops@ == head + disable_all().take(2 * (i - 1)),
            decreases EP_COUNT - i,
        {
            ops.push(
                Op::Modify { reg: Reg::EpInControl(i - 1), mask: EP_CONTROL_ENABLE, value: 0 },
            );
            ops.push(
                Op::Modify { reg: Reg::EpOutControl(i - 1), mask: EP_CONTROL_ENABLE, value: 0 },
            );
            i = i + 1;
            assert(ops@ =~= head + disable_all().take(2 * (i - 1)));
        }
        assert(ops@ =~= head + disable_all());
        let ghost mid = ops@;
        let mut i: usize = 0;
        while i < EP_COUNT
            invariant
                i <= EP_COUNT,
                ops.wf(),
                mid.len() + 32 <= crate::ops::OP_CAPACITY,
                ops@ == mid + Seq::new(i as nat, |j: int| Op::Wake(WakerId::In(j as usize))),
            decreases EP_COUNT - i,
        {
            ops.push(Op::Wake(WakerId::In(i)));
            i = i + 1;
            assert(ops@ =~= mid + Seq::new(i as nat, |j: int| Op::Wake(WakerId::In(j as usize))));
        }
        let ghost late = ops@;
        let mut i: usize = 0;
        while i < EP_COUNT
            invariant
                i <= EP_COUNT,
                ops.wf(),
                late.len() + 16 <= crate::ops::OP_CAPACITY,
                ops@ == late + Seq::new(i as nat, |j: int| Op::Wake(WakerId::Out(j as usize))),
            decreases EP_COUNT - i,
        {
            ops.push(Op::Wake(WakerId::Out(i)));
            i = i + 1;
            assert(ops@ =~= late + Seq::new(i as nat, |j: int| Op::Wake(WakerId::Out(j as usize))));
        }
        assert(ops@ =~= old(ops)@ + reset_ops());
    }

    /// Set or clear the STALL condition for an endpoint.
    pub fn endpoint_set_stalled(
        &mut self,
        ops: &mut OpList,
        ep_addr: EndpointAddress,
        stalled: bool,
    )
        requires
            ep_addr.index_part() < EP_COUNT,
            old(ops).has_room(3),
        ensures
            final(self)@ == old(self)@,
            final(ops).wf(),
            final(ops)@ == old(ops)@ + stall_ops(ep_addr, stalled),
    {
        let n: usize = ep_addr.index();
        if n == 0 {
            let arm: u32 = if ep_addr.is_in() {
                STALL_ARM_EP0_IN
            } else {
                STALL_ARM_EP0_OUT
            };
            ops.push(
                Op::Modify {
                    reg: Reg::EpStallArm,
                    mask: arm,
                    value: if stalled {
                        arm
                    } else {
                        0
                    },
                },
            );
        }
        let ctrl = if ep_addr.is_in() {
            Reg::EpInBufferControl(n)
        } else {
            Reg::EpOutBufferControl(n)
        };
        ops.push(
            Op::Modify {
                reg: ctrl,
                mask: BUFFER_CONTROL_STALL,
                value: if stalled {
                    BUFFER_CONTROL_STALL
                } else {
                    0
                },
            },
        );
        ops.push(
            Op::Wake(
                if ep_addr.is_in() {
                    WakerId::In(n)
                } else {
                    WakerId::Out(n)
                },
            ),
        );
        assert(ops@ =~= old(ops)@ + stall_ops(ep_addr, stalled));
    }

    /// A step of a look at whether the STALL condition is set for an endpoint.
    pub fn endpoint_is_stalled(
        &mut self,
        st: &mut StallState,
        input: u32,
        ep_addr: EndpointAddress,
    ) -> (r: Request<bool>)
        requires
            ep_addr.index_part() < EP_COUNT,
        ensures
            final(self)@ == old(self)@,
            r.valid(),
            r == is_stalled_next(ep_addr, *old(st), input).request,
            *final(st) == is_stalled_next(ep_addr, *old(st), input).state,
    {
        match *st {
            StallState::Begin => {
                let n: usize = ep_addr.index();
                *st = StallState::Sample;
                Request::Read(
                    if ep_addr.is_in() {
                        Reg::EpInBufferControl(n)
                    } else {
                        Reg::EpOutBufferControl(n)
                    },
                )
            },
            StallState::Sample => {
                *st = StallState::Begin;
                Request::Ready(EpBufferControl(input).stall())
            },
        }
    }

    /// Enable or disable an endpoint.
    pub fn endpoint_set_enabled(
        &mut self,
        ops: &mut OpList,
        ep_addr: EndpointAddress,
        enabled: bool,
    )
        requires
            ep_addr.index_part() < EP_COUNT,
            old(ops).has_room(5),
        ensures
            final(self)@ == old(self)@,
            final(ops).wf(),
            final(ops)@ == old(ops)@ + enable_ops(old(self)@, ep_addr, enabled),
    {
        if ep_addr.index() == 0 {
            assert(ops@ =~= old(ops)@ + enable_ops(self@, ep_addr, enabled));
            return;
        }
        let n: usize = ep_addr.index();
        let value: u32 = if enabled {
            EP_CONTROL_ENABLE
        } else {
            0
        };
        match ep_addr.direction() {
            Direction::In => {
                ops.push(
                    Op::Modify { reg: Reg::EpInControl(n - 1), mask: EP_CONTROL_ENABLE, value },
                );
                // The PID is flipped before each packet: the first one of buffer 0 is DATA0,
                // the first one of buffer 1, if there is one, is DATA1.
                let b0 = DoubleBufConfig { pid: true, length: 0, available: false, full: false };
                let word = EpBufferControl::new(b0, DoubleBufConfig::empty());
                ops.push(Op::Write { reg: Reg::EpInBufferControl(n), value: word.0 });
                ops.push(Op::Wake(WakerId::In(n)));
            },
            Direction::Out => {
                let ep_data = self.ep_out[n];
                ops.push(
                    Op::Modify { reg: Reg::EpOutControl(n - 1), mask: EP_CONTROL_ENABLE, value },
                );
                let length: u16 = ep_data.max_packet_size;
                let b0 = DoubleBufConfig { pid: false, length, available: false, full: false };
                let b1 = if ep_data.double_buffered {
                    // Both buffers are made available.
                    // This allows continuous reception without gaps.
                    DoubleBufConfig { pid: true, length, available: false, full: false }
                } else {
                    DoubleBufConfig::empty()
                };
                let first = EpBufferControl::new(b0, b1);
                let second = EpBufferControl::new(
                    DoubleBufConfig { available: true, ..b0 },
                    DoubleBufConfig { available: ep_data.double_buffered, ..b1 },
                );
                push_handoff(ops, Reg::EpOutBufferControl(n), first.0, second.0);
                ops.push(Op::Wake(WakerId::Out(n)));
            },
        }
        assert(ops@ =~= old(ops)@ + enable_ops(self@, ep_addr, enabled));
    }

    /// The peripheral is up from the start: nothing is done.
    pub fn enable(&mut self)
        ensures
            final(self)@ == old(self)@,
    {
    }

    /// The peripheral stays up: nothing is done.
    pub fn disable(&mut self)
        ensures
            final(self)@ == old(self)@,
    {
    }

    /// Waking the host is not supported.
    pub fn remote_wakeup(&mut self) -> (r: Result<(), Unsupported>)
        ensures
            final(self)@ == old(self)@,
            r == Err::<(), Unsupported>(Unsupported),
    {
        Err(Unsupported)
    }
}

} // verus!
