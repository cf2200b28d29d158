//! The control pipe: endpoint 0 in both directions.
use core::marker::PhantomData;
use crate::buffer::{
    available_at, blank, length_at, overlaid, pid_at, single_word, BufIdx, DoubleBufConfig,
    EndpointBuffer, EpBufferControl, EP_MEMORY_SIZE,
};
use crate::bus::room_for;
use crate::endpoint::loaded;
use crate::instance::Instance;
use crate::ops::{handoff, push_handoff, Next, Op, OpList, Request, WakerId};
use crate::regs::{
    address, address_word, any_set, is_set, Reg, BUFFER_CONTROL_STALL, INT_SETUP_REQ,
    SIE_STATUS_SETUP_REC, STALL_ARM_EP0_IN, STALL_ARM_EP0_OUT,
};
use crate::types::EndpointError;
use vstd::prelude::*;

verus! {

/// Address of the last SETUP packet in the dual-port memory.
pub const SETUP_PACKET: u16 = 0;

/// Length of a SETUP packet.
pub const SETUP_LEN: u16 = 8;

/// Address of the buffer of endpoint 0, which both directions share.
pub const EP0_BUFFER: u16 = 0x100;

/// Length of the buffer of endpoint 0.
pub const EP0_LEN: u16 = 64;

/// The two buffer control words that hand a buffer over: without and with the available bit.
pub open spec fn single_handoff(reg: Reg, b0: DoubleBufConfig) -> Seq<Op> {
    handoff(reg, single_word(b0), single_word(b0.with_available(true)))
}

/// How far a wait for a SETUP packet has come.
#[derive(Clone, Copy, Debug, PartialEq, Eq, Structural)]
pub enum SetupState {
    /// Nothing was done yet.
    Begin,
    /// The task is polled again.
    Wait,
    /// The word of `SIE_STATUS` is due.
    Sample,
}

/// A step of a wait for a SETUP packet; the PIDs of endpoint 0 are set to 0, so that, flipped, the
/// first data packet is DATA1.
pub open spec fn setup_next(
    st: SetupState,
    input: u32,
    mem: Seq<u8>,
) -> Next<SetupState, Seq<u8>> {
    match st {
        SetupState::Begin => Next {
            ops: seq![
                Op::SetBits { reg: Reg::Inte, value: INT_SETUP_REQ },
                Op::Register(WakerId::Out(0)),
            ],
            request: Request::Read(Reg::SieStatus),
            state: SetupState::Sample,
        },
        SetupState::Wait => Next {
            ops: seq![Op::Register(WakerId::Out(0))],
            request: Request::Read(Reg::SieStatus),
            state: SetupState::Sample,
        },
        SetupState::Sample => if any_set(input, SIE_STATUS_SETUP_REC) {
            Next {
                ops: seq![
                    Op::Write { reg: Reg::SieStatus, value: SIE_STATUS_SETUP_REC },
                    Op::Write { reg: Reg::EpInBufferControl(0), value: single_word(blank()) },
                    Op::Write { reg: Reg::EpOutBufferControl(0), value: single_word(blank()) },
                ],
                request: Request::Ready(
                    mem.subrange(SETUP_PACKET as int, SETUP_PACKET + SETUP_LEN),
                ),
                state: SetupState::Begin,
            }
        } else {
            Next { ops: Seq::empty(), request: Request::Pending, state: SetupState::Wait }
        },
    }
}

/// A request whose result is an array of eight bytes, by its contents.
pub open spec fn packet_request(r: Request<[u8; 8]>) -> Request<Seq<u8>> {
    match r {
        Request::Read(reg) => Request::Read(reg),
        Request::Pending => Request::Pending,
        Request::Ready(packet) => Request::Ready(packet@),
    }
}

/// How far a transfer of a data packet has come.
#[derive(Clone, Copy, Debug, PartialEq, Eq, Structural)]
pub enum DataState {
    /// Nothing was done yet.
    Begin,
    /// The buffer control word is due, for its PID.
    Arm,
    /// The task is polled again.
    Wait,
    /// The buffer control word is due, for the end of the transfer.
    Sample,
}

/// The controller does not claim to have received more than the buffer holds, except where the
/// packet is refused anyway since the reader has less than `room` for it.
pub open spec fn data_plausible(st: DataState, input: u32, room: int) -> bool {
    st is Sample && !available_at(input, BufIdx::Buf0) ==> length_at(input, BufIdx::Buf0)
        <= EP0_LEN || length_at(input, BufIdx::Buf0) > room
}

/// A step of receiving a data packet into a buffer of `room` bytes.
pub open spec fn data_out_next(
    max_packet_size: u16,
    st: DataState,
    input: u32,
    room: int,
) -> Next<DataState, Result<usize, EndpointError>> {
    let reg = Reg::EpOutBufferControl(0);
    let poll = seq![Op::Register(WakerId::Out(0))];
    match st {
        DataState::Begin => Next {
            ops: Seq::empty(),
            request: Request::Read(reg),
            state: DataState::Arm,
        },
        DataState::Arm => Next {
            ops: single_handoff(reg, room_for(!pid_at(input, BufIdx::Buf0), max_packet_size))
                + poll,
            request: Request::Read(reg),
            state: DataState::Sample,
        },
        DataState::Wait => Next {
            ops: poll,
            request: Request::Read(reg),
            state: DataState::Sample,
        },
        DataState::Sample => if available_at(input, BufIdx::Buf0) {
            Next { ops: Seq::empty(), request: Request::Pending, state: DataState::Wait }
        } else if length_at(input, BufIdx::Buf0) > room {
            Next {
                ops: Seq::empty(),
                request: Request::Ready(Err(EndpointError::BufferOverflow)),
                state: DataState::Begin,
            }
        } else {
            Next {
                ops: Seq::empty(),
                request: Request::Ready(Ok(length_at(input, BufIdx::Buf0) as usize)),
                state: DataState::Begin,
            }
        },
    }
}

/// What a step of receiving a data packet leaves in the buffer of the reader.
pub open spec fn data_out_into(
    st: DataState,
    input: u32,
    mem: Seq<u8>,
    buf: Seq<u8>,
) -> Seq<u8> {
    let len = length_at(input, BufIdx::Buf0);
    if st is Sample && !available_at(input, BufIdx::Buf0) && len <= buf.len() {
        overlaid(buf, 0, mem.subrange(EP0_BUFFER as int, EP0_BUFFER + len))
    } else {
        buf
    }
}

/// What opens endpoint 0 OUT for the empty packet with which the host ends a control read.
pub open spec fn status_out() -> Seq<Op> {
    single_handoff(Reg::EpOutBufferControl(0), room_for(true, 0))
}

/// What offers the empty packet with which the device ends a control write.
pub open spec fn status_in() -> Seq<Op> {
    single_handoff(Reg::EpInBufferControl(0), loaded(true, 0))
}

/// A step of sending a data packet of `len` bytes; after the last one the status stage is prepared
/// right away.
pub open spec fn data_in_next(
    st: DataState,
    input: u32,
    len: int,
    last: bool,
) -> Next<DataState, Result<(), EndpointError>> {
    let reg = Reg::EpInBufferControl(0);
    let poll = seq![Op::Register(WakerId::In(0))];
    match st {
        DataState::Begin => if len > EP0_LEN {
            Next {
                ops: Seq::empty(),
                request: Request::Ready(Err(EndpointError::BufferOverflow)),
                state: DataState::Begin,
            }
        } else {
            Next { ops: Seq::empty(), request: Request::Read(reg), state: DataState::Arm }
        },
        DataState::Arm => Next {
            ops: single_handoff(reg, loaded(!pid_at(input, BufIdx::Buf0), len as u16)) + poll,
            request: Request::Read(reg),
            state: DataState::Sample,
        },
        DataState::Wait => Next {
            ops: poll,
            request: Request::Read(reg),
            state: DataState::Sample,
        },
        DataState::Sample => if available_at(input, BufIdx::Buf0) {
            Next { ops: Seq::empty(), request: Request::Pending, state: DataState::Wait }
        } else {
            Next {
                ops: if last {
                    status_out()
                } else {
                    Seq::empty()
                },
                request: Request::Ready(Ok(())),
                state: DataState::Begin,
            }
        },
    }
}

/// The states that the sending of `len` bytes can come to: a packet that is too long is refused at
/// once.
pub open spec fn data_in_can_be_at(st: DataState, len: int) -> bool {
    st is Begin || len <= EP0_LEN
}

/// What a step of sending a data packet leaves in the dual-port memory.
pub open spec fn data_in_into(st: DataState, mem: Seq<u8>, data: Seq<u8>) -> Seq<u8> {
    if st is Begin && data.len() <= EP0_LEN {
        overlaid(mem, EP0_BUFFER as int, data)
    } else {
        mem
    }
}

/// How far an acceptance has come.
#[derive(Clone, Copy, Debug, PartialEq, Eq, Structural)]
pub enum AcceptState {
    /// Nothing was done yet.
    Begin,
    /// The task is polled again.
    Wait,
    /// The buffer control word is due.
    Sample,
}

/// A step of accepting a control request; `done` is what follows once the status packet is sent.
pub open spec fn accept_next(st: AcceptState, input: u32, done: Seq<Op>) -> Next<AcceptState, ()> {
    let reg = Reg::EpInBufferControl(0);
    let poll = seq![Op::Register(WakerId::In(0))];
    match st {
        AcceptState::Begin => Next {
            ops: status_in() + poll,
            request: Request::Read(reg),
            state: AcceptState::Sample,
        },
        AcceptState::Wait => Next {
            ops: poll,
            request: Request::Read(reg),
            state: AcceptState::Sample,
        },
        AcceptState::Sample => if available_at(input, BufIdx::Buf0) {
            Next { ops: Seq::empty(), request: Request::Pending, state: AcceptState::Wait }
        } else {
            Next { ops: done, request: Request::Ready(()), state: AcceptState::Begin }
        },
    }
}

/// What gives the device its address.
pub open spec fn set_address_ops(addr: u8) -> Seq<Op> {
    seq![Op::Write { reg: Reg::AddrEndp, value: address_word(addr) }]
}

/// What refuses a control request: endpoint 0 answers with a STALL in both directions.
pub open spec fn reject_ops() -> Seq<Op> {
    seq![
        Op::SetBits { reg: Reg::EpStallArm, value: STALL_ARM_EP0_IN | STALL_ARM_EP0_OUT },
        Op::Write { reg: Reg::EpOutBufferControl(0), value: BUFFER_CONTROL_STALL },
        Op::Write { reg: Reg::EpInBufferControl(0), value: BUFFER_CONTROL_STALL },
    ]
}

/// Appends the two buffer control words of endpoint 0.
fn push_single_handoff(ops: &mut OpList, reg: Reg, b0: DoubleBufConfig)
    requires
        old(ops).has_room(3),
        reg.valid(),
        !b0.available,
    ensures
        final(ops).wf(),
        final(ops)@ == old(ops)@ + single_handoff(reg, b0),
{
    let first = EpBufferControl::new(b0, DoubleBufConfig::empty());
    let second = EpBufferControl::new(
        DoubleBufConfig { available: true, ..b0 },
        DoubleBufConfig::empty(),
    );
    push_handoff(ops, reg, first.0, second.0);
}

/// Control pipe for RP USB driver.
pub struct ControlPipe<'d, T: Instance> {
    _phantom: PhantomData<&'d mut T>,
    max_packet_size: u16,
}

impl<'d, T: Instance> ControlPipe<'d, T> {
    /// Longest packet that the host is allowed to send.
    pub closed spec fn view(&self) -> u16 {
        self.max_packet_size
    }

    pub(crate) fn new(max_packet_size: u16) -> (r: Self)
        ensures
            r@ == max_packet_size,
    {
        ControlPipe { _phantom: PhantomData, max_packet_size }
    }

    /// Maximum packet size for the control pipe.
    pub fn max_packet_size(&self) -> (r: usize)
        ensures
            r == 64,
    {
        64
    }

    /// A step of waiting for a SETUP packet, where `mem` is the dual-port memory.
    pub fn setup(
        &mut self,
        st: &mut SetupState,
        input: u32,
        mem: &[u8],
        ops: &mut OpList,
    ) -> (r: Request<[u8; 8]>)
        requires
            mem@.len() == EP_MEMORY_SIZE,
            old(ops).has_room(3),
        ensures
            final(self)@ == old(self)@,
            final(ops).wf(),
            r.valid(),
            final(ops)@ == old(ops)@ + setup_next(*old(st), input, mem@).ops,
            packet_request(r) == setup_next(*old(st), input, mem@).request,
            *final(st) == setup_next(*old(st), input, mem@).state,
    {
        match *st {
            SetupState::Begin => {
                ops.push(Op::SetBits { reg: Reg::Inte, value: INT_SETUP_REQ });
                ops.push(Op::Register(WakerId::Out(0)));
                assert(ops@ =~= old(ops)@ + setup_next(SetupState::Begin, input, mem@).ops);
                *st = SetupState::Sample;
                Request::Read(Reg::SieStatus)
            },
            SetupState::Wait => {
                ops.push(Op::Register(WakerId::Out(0)));
                assert(ops@ =~= old(ops)@ + setup_next(SetupState::Wait, input, mem@).ops);
                *st = SetupState::Sample;
                Request::Read(Reg::SieStatus)
            },
            SetupState::Sample => {
                if !is_set(input, SIE_STATUS_SETUP_REC) {
                    assert(ops@ =~= old(ops)@ + Seq::<Op>::empty());
                    *st = SetupState::Wait;
                    return Request::Pending;
                }
                let mut buf = [0u8; 8];
                let mut source = EndpointBuffer::<T>::new(SETUP_PACKET, SETUP_LEN);
                source.read(mem, &mut buf);
                ops.push(Op::Write { reg: Reg::SieStatus, value: SIE_STATUS_SETUP_REC });
                // set PID to 0, so (after toggling) first DATA is PID 1
                let word = EpBufferControl::new(DoubleBufConfig::empty(), DoubleBufConfig::empty());
                ops.push(Op::Write { reg: Reg::EpInBufferControl(0), value: word.0 });
                ops.push(Op::Write { reg: Reg::EpOutBufferControl(0), value: word.0 });
                assert(ops@ =~= old(ops)@ + setup_next(SetupState::Sample, input, mem@).ops);
                *st = SetupState::Begin;
                Request::Ready(buf)
            },
        }
    }

    /// Whether a step of receiving may be taken: see [`data_plausible`].
    pub fn is_data_plausible(&self, st: &DataState, input: u32, room: usize) -> (r: bool)
        ensures
            r == data_plausible(*st, input, room as int),
    {
        match *st {
            DataState::Sample => {
                let val = EpBufferControl(input);
                let len: u16 = val.length(BufIdx::Buf0);
                val.available(BufIdx::Buf0) || len <= EP0_LEN || len as usize > room
            },
            _ => true,
        }
    }

    /// A step of receiving a data packet into `buf`, where `mem` is the dual-port memory.
    pub fn data_out(
        &mut self,
        st: &mut DataState,
        input: u32,
        mem: &[u8],
        buf: &mut [u8],
        _first: bool,
        _last: bool,
        ops: &mut OpList,
    ) -> (r: Request<Result<usize, EndpointError>>)
        requires
            mem@.len() == EP_MEMORY_SIZE,
            data_plausible(*old(st), input, old(buf)@.len() as int),
            old(ops).has_room(4),
        ensures
            final(self)@ == old(self)@,
            final(ops).wf(),
            r.valid(),
            final(ops)@ == old(ops)@ + data_out_next(
                old(self)@,
                *old(st),
                input,
                old(buf)@.len() as int,
            ).ops,
            r == data_out_next(old(self)@, *old(st), input, old(buf)@.len() as int).request,
            *final(st) == data_out_next(
                old(self)@,
                *old(st),
                input,
                old(buf)@.len() as int,
            ).state,
            final(buf)@ == data_out_into(*old(st), input, mem@, old(buf)@),
    {
        let reg = Reg::EpOutBufferControl(0);
        let val = EpBufferControl(input);
        match *st {
            DataState::Begin => {
                assert(ops@ =~= old(ops)@ + Seq::<Op>::empty());
                *st = DataState::Arm;
                Request::Read(reg)
            },
            DataState::Arm => {
                let b0 = DoubleBufConfig {
                    pid: !val.pid(BufIdx::Buf0),
                    length: self.max_packet_size,
                    available: false,
                    full: false,
                };
                push_single_handoff(ops, reg, b0);
                ops.push(Op::Register(WakerId::Out(0)));
                assert(ops@ =~= old(ops)@ + (single_handoff(reg, b0) + seq![
                    Op::Register(WakerId::Out(0)),
                ]));
                *st = DataState::Sample;
                Request::Read(reg)
            },
            DataState::Wait => {
                ops.push(Op::Register(WakerId::Out(0)));
                assert(ops@ =~= old(ops)@ + seq![Op::Register(WakerId::Out(0))]);
                *st = DataState::Sample;
                Request::Read(reg)
            },
            DataState::Sample => {
                assert(ops@ =~= old(ops)@ + Seq::<Op>::empty());
                if val.available(BufIdx::Buf0) {
                    *st = DataState::Wait;
                    return Request::Pending;
                }
                *st = DataState::Begin;
                let rx_len: usize = val.length(BufIdx::Buf0) as usize;
                if rx_len > buf.len() {
                    return Request::Ready(Err(EndpointError::BufferOverflow));
                }
                let (head, tail) = buf.split_at_mut(rx_len);
                let mut source = EndpointBuffer::<T>::new(EP0_BUFFER, EP0_LEN);
                source.read(mem, head);
                assert(head@ + tail@ =~= data_out_into(DataState::Sample, input, mem@, old(buf)@));
                Request::Ready(Ok(rx_len))
            },
        }
    }

    /// A step of sending the data packet `data`, where `mem` is the dual-port memory.
    pub fn data_in(
        &mut self,
        st: &mut DataState,
        input: u32,
        mem: &mut [u8],
        data: &[u8],
        _first: bool,
        last: bool,
        ops: &mut OpList,
    ) -> (r: Request<Result<(), EndpointError>>)
        requires
            old(mem)@.len() == EP_MEMORY_SIZE,
            data_in_can_be_at(*old(st), data@.len() as int),
            old(ops).has_room(4),
        ensures
            final(self)@ == old(self)@,
            data_in_can_be_at(*final(st), data@.len() as int),
            final(ops).wf(),
            r.valid(),
            final(ops)@ == old(ops)@ + data_in_next(
                *old(st),
                input,
                data@.len() as int,
                last,
            ).ops,
            r == data_in_next(*old(st), input, data@.len() as int, last).request,
            *final(st) == data_in_next(*old(st), input, data@.len() as int, last).state,
            final(mem)@ == data_in_into(*old(st), old(mem)@, data@),
    {
        let reg = Reg::EpInBufferControl(0);
        let val = EpBufferControl(input);
        match *st {
            DataState::Begin => {
                assert(ops@ =~= old(ops)@ + Seq::<Op>::empty());
                if data.len() > EP0_LEN as usize {
                    return Request::Ready(Err(EndpointError::BufferOverflow));
                }
                let mut target = EndpointBuffer::<T>::new(EP0_BUFFER, EP0_LEN);
                target.write(mem, data);
                *st = DataState::Arm;
                Request::Read(reg)
            },
            DataState::Arm => {
                let b0 = DoubleBufConfig {
                    pid: !val.pid(BufIdx::Buf0),
                    length: data.len() as u16,
                    available: false,
                    full: true,
                };
                push_single_handoff(ops, reg, b0);
                ops.push(Op::Register(WakerId::In(0)));
                assert(ops@ =~= old(ops)@ + (single_handoff(reg, b0) + seq![
                    Op::Register(WakerId::In(0)),
                ]));
                *st = DataState::Sample;
                Request::Read(reg)
            },
            DataState::Wait => {
                ops.push(Op::Register(WakerId::In(0)));
                assert(ops@ =~= old(ops)@ + seq![Op::Register(WakerId::In(0))]);
                *st = DataState::Sample;
                Request::Read(reg)
            },
            DataState::Sample => {
                assert(ops@ =~= old(ops)@ + Seq::<Op>::empty());
                if val.available(BufIdx::Buf0) {
                    *st = DataState::Wait;
                    return Request::Pending;
                }
                if last {
                    // prepare status phase right away.
                    let b0 = DoubleBufConfig {
                        pid: true,
                        length: 0,
                        available: false,
                        full: false,
                    };
                    push_single_handoff(ops, Reg::EpOutBufferControl(0), b0);
                }
                *st = DataState::Begin;
                Request::Ready(Ok(()))
            },
        }
    }

    /// A step of accepting a control request.
    pub fn accept(&mut self, st: &mut AcceptState, input: u32, ops: &mut OpList) -> (r: Request<()>)
        requires
            old(ops).has_room(4),
        ensures
            final(self)@ == old(self)@,
            final(ops).wf(),
            r.valid(),
            final(ops)@ == old(ops)@ + accept_next(*old(st), input, Seq::empty()).ops,
            r == accept_next(*old(st), input, Seq::empty()).request,
            *final(st) == accept_next(*old(st), input, Seq::empty()).state,
    {
        let reg = Reg::EpInBufferControl(0);
        match *st {
            AcceptState::Begin => {
                let b0 = DoubleBufConfig { pid: true, length: 0, available: false, full: true };
                push_single_handoff(ops, reg, b0);
                ops.push(Op::Register(WakerId::In(0)));
                assert(ops@ =~= old(ops)@ + (status_in() + seq![Op::Register(WakerId::In(0))]));
                *st = AcceptState::Sample;
                Request::Read(reg)
            },
            AcceptState::Wait => {
                ops.push(Op::Register(WakerId::In(0)));
                assert(ops@ =~= old(ops)@ + seq![Op::Register(WakerId::In(0))]);
                *st = AcceptState::Sample;
                Request::Read(reg)
            },
            AcceptState::Sample => {
                // wait for completion before returning, needed so
                // set_address() doesn't happen early.
                assert(ops@ =~= old(ops)@ + Seq::<Op>::empty());
                if EpBufferControl(input).available(BufIdx::Buf0) {
                    *st = AcceptState::Wait;
                    Request::Pending
                } else {
                    *st = AcceptState::Begin;
                    Request::Ready(())
                }
            },
        }
    }

    /// Reject a control request.
    pub fn reject(&mut self, ops: &mut OpList)
        requires
            old(ops).has_room(3),
        ensures
            final(self)@ == old(self)@,
            final(ops).wf(),
            final(ops)@ == old(ops)@ + reject_ops(),
    {
        ops.push(
            Op::SetBits { reg: Reg::EpStallArm, value: STALL_ARM_EP0_IN | STALL_ARM_EP0_OUT },
        );
        ops.push(Op::Write { reg: Reg::EpOutBufferControl(0), value: BUFFER_CONTROL_STALL });
        ops.push(Op::Write { reg: Reg::EpInBufferControl(0), value: BUFFER_CONTROL_STALL });
        assert(ops@ =~= old(ops)@ + reject_ops());
    }

    /// A step of accepting a SET_ADDRESS request, after which the device has the address.
    pub fn accept_set_address(
        &mut self,
        st: &mut AcceptState,
        input: u32,
        addr: u8,
        ops: &mut OpList,
    ) -> (r: Request<()>)
        requires
            old(ops).has_room(4),
        ensures
            final(self)@ == old(self)@,
            final(ops).wf(),
            r.valid(),
            final(ops)@ == old(ops)@ + accept_next(*old(st), input, set_address_ops(addr)).ops,
            r == accept_next(*old(st), input, set_address_ops(addr)).request,
            *final(st) == accept_next(*old(st), input, set_address_ops(addr)).state,
    {
        let r = self.accept(st, input, ops);
        match r {
            Request::Ready(_) => {
                ops.push(Op::Write { reg: Reg::AddrEndp, value: address(addr) });
                assert(ops@ =~= old(ops)@ + set_address_ops(addr));
            },
            _ => {},
        }
        r
    }
}

} // verus!
