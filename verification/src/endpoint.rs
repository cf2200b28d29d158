//! Endpoints: receiving and sending packets.
use core::marker::PhantomData;
use crate::buffer::{
    available_at, in_double_words, length_at, out_double_words, overlaid, pid_at, single_word,
    write_in_buffer_control_double, write_out_buffer_control_double, BufIdx, BufferState,
    DoubleBufConfig, EndpointBuffer, EpBufferControl, EP_MEMORY_SIZE,
};
use crate::bus::{endpoint_waker, room_for};
use crate::driver::{ep_control_reg, packet_size_ok, BUFFER_ALIGN, DATA_BUFFERS, EP_COUNT};
use crate::instance::{Dir, In, Instance, Out};
use crate::ops::{handoff, push_handoff, Next, Op, OpList, Request, WakerId};
use crate::regs::{any_set, ep_in, ep_in_bit, ep_out, ep_out_bit, is_set, Reg, EP_CONTROL_ENABLE};
use crate::types::{Direction, EndpointError, EndpointInfo};
use vstd::prelude::*;

verus! {

/// What an endpoint is.
pub struct EndpointState {
    pub info: EndpointInfo,
    pub buf: BufferState,
}

impl EndpointState {
    /// Index of the endpoint.
    pub open spec fn index(self) -> usize {
        self.info.addr.index_part()
    }

    /// An endpoint of direction `dir` other than endpoint 0, whose aligned buffers lie in the data
    /// area of the dual-port memory and hold the longest packet; two buffers exactly for a bulk
    /// endpoint.
    pub open spec fn wf(self, dir: Direction) -> bool {
        &&& 0 < self.index() < EP_COUNT
        &&& self.info.addr.direction_part() == dir
        &&& packet_size_ok(self.info.ep_type, self.info.max_packet_size)
        &&& self.buf.double_buffered == (self.info.ep_type is Bulk)
        &&& self.info.max_packet_size <= self.buf.len
        &&& DATA_BUFFERS <= self.buf.addr
        &&& self.buf.addr % BUFFER_ALIGN == 0
        &&& self.buf.len % BUFFER_ALIGN == 0
        &&& self.buf.limit() <= EP_MEMORY_SIZE
    }
}

/// How far a wait for the endpoint to be enabled has come.
#[derive(Clone, Copy, Debug, PartialEq, Eq, Structural)]
pub enum EnableState {
    /// The task is polled.
    Wait,
    /// The endpoint control word is due.
    Sample,
}

/// A step of a wait for the endpoint to be enabled.
pub open spec fn wait_enabled_next(
    ep: EndpointState,
    dir: Direction,
    st: EnableState,
    input: u32,
) -> Next<EnableState, ()> {
    match st {
        EnableState::Wait => Next {
            ops: seq![Op::Register(endpoint_waker(dir, ep.index()))],
            request: Request::Read(ep_control_reg(dir, ep.index())),
            state: EnableState::Sample,
        },
        EnableState::Sample => Next {
            ops: Seq::empty(),
            request: if any_set(input, EP_CONTROL_ENABLE) {
                Request::Ready(())
            } else {
                Request::Pending
            },
            state: EnableState::Wait,
        },
    }
}

/// The buffer to serve next: the preferred one, unless the controller still has it.
pub open spec fn chosen_buffer(val: u32, preferred: BufIdx) -> BufIdx {
    if !available_at(val, preferred) {
        preferred
    } else {
        preferred.twin()
    }
}

/// The buffer that `BUFF_CPU_SHOULD_HANDLE` names: its bit for the endpoint is the buffer number.
pub open spec fn preferred_buffer(second: bool) -> BufIdx {
    if second {
        BufIdx::Buf1
    } else {
        BufIdx::Buf0
    }
}

/// At least one buffer is not with the controller.
pub open spec fn some_buffer_ready(val: u32) -> bool {
    !available_at(val, BufIdx::Buf0) || !available_at(val, BufIdx::Buf1)
}

/// How far a read has come.
#[derive(Clone, Copy, Debug, PartialEq, Eq, Structural)]
pub enum ReadState {
    /// The task is polled.
    Wait,
    /// The buffer control word is due.
    Sample,
    /// The word of `BUFF_CPU_SHOULD_HANDLE` is due; the buffer control word is kept.
    Choose(u32),
    /// The packet of the given length was taken out of the given buffer, whose PID was as given;
    /// a fresh buffer control word is due.
    Rearm(BufIdx, bool, usize),
}

/// The states that a read of the endpoint can come to: a choice and a second look at the buffer
/// control word are for endpoints with two buffers.
pub open spec fn read_can_be_at(ep: EndpointState, st: ReadState) -> bool {
    st is Choose || st is Rearm ==> ep.buf.double_buffered
}

/// The buffer that a step takes a packet out of, and the buffer control word that says so.
pub open spec fn arrived(
    ep: EndpointState,
    st: ReadState,
    input: u32,
) -> Option<(BufIdx, u32)> {
    match st {
        ReadState::Sample if !ep.buf.double_buffered && !available_at(input, BufIdx::Buf0) => Some(
            (BufIdx::Buf0, input),
        ),
        ReadState::Choose(val) => Some(
            (chosen_buffer(val, preferred_buffer(ep_out_bit(input, ep.index() as int))), val),
        ),
        _ => None,
    }
}

/// The controller does not claim to have received more than the buffer of the endpoint holds,
/// except where the packet is refused anyway since the reader has less than `room` for it.
pub open spec fn packet_plausible(
    ep: EndpointState,
    st: ReadState,
    input: u32,
    room: int,
) -> bool {
    arrived(ep, st, input) matches Some((b, word)) ==> length_at(word, b) <= ep.buf.len
        || length_at(word, b) > room
}

/// `buf` with the packet in buffer `b` at its start.
pub open spec fn with_packet(
    ep: EndpointState,
    b: BufIdx,
    len: int,
    mem: Seq<u8>,
    buf: Seq<u8>,
) -> Seq<u8> {
    overlaid(buf, 0, mem.subrange(ep.buf.start(b), ep.buf.start(b) + len))
}

/// A buffer of an OUT endpoint that is ready for a packet.
pub open spec fn rearmed(ep: EndpointState, pid: bool) -> DoubleBufConfig {
    room_for(pid, ep.info.max_packet_size)
}

/// A step of a read.
pub open spec fn read_next(
    ep: EndpointState,
    st: ReadState,
    input: u32,
    room: int,
) -> Next<ReadState, Result<usize, EndpointError>> {
    let reg = Reg::EpOutBufferControl(ep.index());
    match (st, arrived(ep, st, input)) {
        (ReadState::Wait, _) => Next {
            ops: seq![Op::Register(WakerId::Out(ep.index()))],
            request: Request::Read(reg),
            state: ReadState::Sample,
        },
        (ReadState::Rearm(b, pid, rx_len), _) => {
            let words = out_double_words(b, !pid, ep.info.max_packet_size, true, input);
            Next {
                ops: handoff(reg, words.0, words.1),
                request: Request::Ready(Ok(rx_len)),
                state: ReadState::Wait,
            }
        },
        (_, Some((b, word))) => if length_at(word, b) > room {
            Next {
                ops: Seq::empty(),
                request: Request::Ready(Err(EndpointError::BufferOverflow)),
                state: ReadState::Wait,
            }
        } else if ep.buf.double_buffered {
            Next {
                ops: Seq::empty(),
                request: Request::Read(reg),
                state: ReadState::Rearm(b, pid_at(word, b), length_at(word, b) as usize),
            }
        } else {
            let empty = rearmed(ep, !pid_at(word, b));
            Next {
                ops: handoff(reg, single_word(empty), single_word(empty.with_available(true))),
                request: Request::Ready(Ok(length_at(word, b) as usize)),
                state: ReadState::Wait,
            }
        },
        (_, None) => if ep.buf.double_buffered && some_buffer_ready(input) {
            Next {
                ops: Seq::empty(),
                request: Request::Read(Reg::BuffCpuShouldHandle),
                state: ReadState::Choose(input),
            }
        } else {
            Next { ops: Seq::empty(), request: Request::Pending, state: ReadState::Wait }
        },
    }
}

/// What a step of a read leaves in the buffer of the reader.
pub open spec fn read_into(
    ep: EndpointState,
    st: ReadState,
    input: u32,
    mem: Seq<u8>,
    buf: Seq<u8>,
) -> Seq<u8> {
    match arrived(ep, st, input) {
        Some((b, word)) if length_at(word, b) <= buf.len() => with_packet(
            ep,
            b,
            length_at(word, b) as int,
            mem,
            buf,
        ),
        _ => buf,
    }
}

/// How far a write has come.
#[derive(Clone, Copy, Debug, PartialEq, Eq, Structural)]
pub enum WriteState {
    /// Nothing was done yet.
    Begin,
    /// The task is polled again.
    Wait,
    /// The buffer control word is due.
    Sample,
    /// The word of `BUFF_CPU_SHOULD_HANDLE` is due; the buffer control word is kept.
    Choose(u32),
    /// The packet was put into the given buffer, whose PID was as given; a fresh buffer control
    /// word is due.
    Submit(BufIdx, bool),
}

/// The states that a write of `len` bytes can come to: a packet that is too long is refused at
/// once, and a choice and a second look at the buffer control word are for endpoints with two
/// buffers.
pub open spec fn write_can_be_at(ep: EndpointState, st: WriteState, len: int) -> bool {
    &&& st is Begin || len <= ep.info.max_packet_size
    &&& st is Choose || st is Submit ==> ep.buf.double_buffered
}

/// The buffer that a step puts the packet into.
pub open spec fn filled(ep: EndpointState, st: WriteState, input: u32) -> Option<BufIdx> {
    match st {
        WriteState::Sample if !ep.buf.double_buffered && !available_at(input, BufIdx::Buf0) => Some(
            BufIdx::Buf0,
        ),
        WriteState::Choose(val) => Some(
            chosen_buffer(val, preferred_buffer(ep_in_bit(input, ep.index() as int))),
        ),
        _ => None,
    }
}

/// A buffer with a packet to send.
pub open spec fn loaded(pid: bool, length: u16) -> DoubleBufConfig {
    DoubleBufConfig { pid, length, available: false, full: true }
}

/// A step of a write of `len` bytes.
pub open spec fn write_next(
    ep: EndpointState,
    st: WriteState,
    input: u32,
    len: int,
) -> Next<WriteState, Result<(), EndpointError>> {
    let reg = Reg::EpInBufferControl(ep.index());
    let poll = Next {
        ops: seq![Op::Register(WakerId::In(ep.index()))],
        request: Request::Read(reg),
        state: WriteState::Sample,
    };
    match st {
        WriteState::Begin => if len > ep.info.max_packet_size {
            Next {
                ops: Seq::empty(),
                request: Request::Ready(Err(EndpointError::BufferOverflow)),
                state: WriteState::Begin,
            }
        } else {
            poll
        },
        WriteState::Wait => poll,
        WriteState::Sample => if ep.buf.double_buffered {
            if some_buffer_ready(input) {
                Next {
                    ops: Seq::empty(),
                    request: Request::Read(Reg::BuffCpuShouldHandle),
                    state: WriteState::Choose(input),
                }
            } else {
                Next { ops: Seq::empty(), request: Request::Pending, state: WriteState::Wait }
            }
        } else if available_at(input, BufIdx::Buf0) {
            Next { ops: Seq::empty(), request: Request::Pending, state: WriteState::Wait }
        } else {
            let full = loaded(!pid_at(input, BufIdx::Buf0), len as u16);
            Next {
                ops: handoff(reg, single_word(full), single_word(full.with_available(true))),
                request: Request::Ready(Ok(())),
                state: WriteState::Begin,
            }
        },
        WriteState::Choose(val) => {
            let b = filled(ep, st, input)->0;
            Next {
                ops: Seq::empty(),
                request: Request::Read(reg),
                state: WriteState::Submit(b, pid_at(val, b)),
            }
        },
        WriteState::Submit(b, pid) => {
            let words = in_double_words(b, !pid, len as u16, true, true, input);
            Next {
                ops: handoff(reg, words.0, words.1),
                request: Request::Ready(Ok(())),
                state: WriteState::Begin,
            }
        },
    }
}

/// What a step of a write leaves in the dual-port memory.
pub open spec fn written_to(
    ep: EndpointState,
    st: WriteState,
    input: u32,
    mem: Seq<u8>,
    buf: Seq<u8>,
) -> Seq<u8> {
    match filled(ep, st, input) {
        Some(b) => overlaid(mem, ep.buf.start(b), buf),
        None => mem,
    }
}

/// Endpoint for RP USB driver.
pub struct Endpoint<'d, T: Instance, D> {
    _phantom: PhantomData<(&'d mut T, D)>,
    info: EndpointInfo,
    buf: EndpointBuffer<T>,
}

impl<'d, T: Instance, D> Endpoint<'d, T, D> {
    pub closed spec fn view(&self) -> EndpointState {
        EndpointState { info: self.info, buf: self.buf@ }
    }

    pub(crate) fn new(info: EndpointInfo, buf: EndpointBuffer<T>) -> (r: Self)
        ensures
            r@ == (EndpointState { info, buf: buf@ }),
    {
        Endpoint { _phantom: PhantomData, info, buf }
    }
}

impl<'d, T: Instance, D: Dir> Endpoint<'d, T, D> {
    /// Get the endpoint info.
    pub fn info(&self) -> (r: &EndpointInfo)
        ensures
            *r == self@.info,
    {
        &self.info
    }

    /// A step of waiting for the endpoint to be enabled.
    pub fn wait_enabled(
        &mut self,
        st: &mut EnableState,
        input: u32,
        ops: &mut OpList,
    ) -> (r: Request<()>)
        requires
            old(self)@.wf(D::direction()),
            old(ops).has_room(1),
        ensures
            final(self)@ == old(self)@,
            final(ops).wf(),
            r.valid(),
            final(ops)@ == old(ops)@ + wait_enabled_next(
                old(self)@,
                D::direction(),
                *old(st),
                input,
            ).ops,
            r == wait_enabled_next(old(self)@, D::direction(), *old(st), input).request,
            *final(st) == wait_enabled_next(old(self)@, D::direction(), *old(st), input).state,
    {
        match *st {
            EnableState::Wait => {
                let index: usize = self.info.addr.index();
                let (waker, reg) = match D::dir() {
                    Direction::Out => (WakerId::Out(index), Reg::EpOutControl(index - 1)),
                    Direction::In => (WakerId::In(index), Reg::EpInControl(index - 1)),
                };
                ops.push(Op::Register(waker));
                assert(ops@ =~= old(ops)@ + seq![Op::Register(waker)]);
                *st = EnableState::Sample;
                Request::Read(reg)
            },
            EnableState::Sample => {
                assert(ops@ =~= old(ops)@ + Seq::<Op>::empty());
                *st = EnableState::Wait;
                if is_set(input, EP_CONTROL_ENABLE) {
                    Request::Ready(())
                } else {
                    Request::Pending
                }
            },
        }
    }
}

fn select_buffer(val: &EpBufferControl, second: bool) -> (r: BufIdx)
    ensures
        r == chosen_buffer(val.0, preferred_buffer(second)),
{
    let preferred = if second {
        BufIdx::Buf1
    } else {
        BufIdx::Buf0
    };
    // Try the preferred buffer first, fall back to the other if not ready.
    if !val.available(preferred) {
        preferred
    } else {
        // Preferred not ready, use the other one (which must be ready).
        preferred.other()
    }
}

impl<'d, T: Instance> Endpoint<'d, T, Out> {
    /// Whether a step of a read may be taken: see [`packet_plausible`].
    pub fn is_packet_plausible(&self, st: &ReadState, input: u32, room: usize) -> (r: bool)
        requires
            self@.wf(Direction::Out),
        ensures
            r == packet_plausible(self@, *st, input, room as int),
    {
        let double_buffered = self.buf.is_double_buffered();
        let len: u16 = match *st {
            ReadState::Sample => {
                let val = EpBufferControl(input);
                if double_buffered || val.available(BufIdx::Buf0) {
                    return true;
                }
                val.length(BufIdx::Buf0)
            },
            ReadState::Choose(word) => {
                let val = EpBufferControl(word);
                let buf_idx = select_buffer(&val, ep_out(input, self.info.addr.index()));
                val.length(buf_idx)
            },
            _ => {
                return true;
            },
        };
        len <= self.buf.buf_len() || len as usize > room
    }

    /// A step of reading a single packet into `buf`, where `mem` is the dual-port memory.
    ///
    /// A packet that does not fit into `buf` stays where it is.
    pub fn read(
        &mut self,
        st: &mut ReadState,
        input: u32,
        mem: &[u8],
        buf: &mut [u8],
        ops: &mut OpList,
    ) -> (r: Request<Result<usize, EndpointError>>)
        requires
            old(self)@.wf(Direction::Out),
            mem@.len() == EP_MEMORY_SIZE,
            packet_plausible(old(self)@, *old(st), input, old(buf)@.len() as int),
            read_can_be_at(old(self)@, *old(st)),
            old(ops).has_room(3),
        ensures
            final(self)@ == old(self)@,
            read_can_be_at(final(self)@, *final(st)),
            final(ops).wf(),
            r.valid(),
            final(ops)@ == old(ops)@ + read_next(
                old(self)@,
                *old(st),
                input,
                old(buf)@.len() as int,
            ).ops,
            r == read_next(old(self)@, *old(st), input, old(buf)@.len() as int).request,
            *final(st) == read_next(old(self)@, *old(st), input, old(buf)@.len() as int).state,
            final(buf)@ == read_into(old(self)@, *old(st), input, mem@, old(buf)@),
    {
        let index: usize = self.info.addr.index();
        match *st {
            ReadState::Wait => {
                ops.push(Op::Register(WakerId::Out(index)));
                assert(ops@ =~= old(ops)@ + seq![Op::Register(WakerId::Out(index))]);
                *st = ReadState::Sample;
                Request::Read(Reg::EpOutBufferControl(index))
            },
            ReadState::Sample => {
                let val = EpBufferControl(input);
                assert(ops@ =~= old(ops)@ + Seq::<Op>::empty());
                if self.buf.is_double_buffered() {
                    // Check if either buffer has completed (available cleared by hardware).
                    // Use BUFF_CPU_SHOULD_HANDLE to determine which buffer to process.
                    if !val.available(BufIdx::Buf0) || !val.available(BufIdx::Buf1) {
                        *st = ReadState::Choose(input);
                        return Request::Read(Reg::BuffCpuShouldHandle);
                    }
                    *st = ReadState::Wait;
                    return Request::Pending;
                }
                *st = ReadState::Wait;
                if val.available(BufIdx::Buf0) {
                    return Request::Pending;
                }
                let rx_len: usize = val.length(BufIdx::Buf0) as usize;
                if rx_len > buf.len() {
                    return Request::Ready(Err(EndpointError::BufferOverflow));
                }
                self.take_packet(BufIdx::Buf0, rx_len, mem, buf);
                let pid = !val.pid(BufIdx::Buf0);
                let b0 = DoubleBufConfig {
                    pid,
                    length: self.info.max_packet_size,
                    available: false,
                    full: false,
                };
                let first = EpBufferControl::new(b0, DoubleBufConfig::empty());
                let second = EpBufferControl::new(
                    DoubleBufConfig { available: true, ..b0 },
                    DoubleBufConfig::empty(),
                );
                push_handoff(ops, Reg::EpOutBufferControl(index), first.0, second.0);
                Request::Ready(Ok(rx_len))
            },
            ReadState::Choose(word) => {
                let val = EpBufferControl(word);
                assert(ops@ =~= old(ops)@ + Seq::<Op>::empty());
                let buf_idx = select_buffer(&val, ep_out(input, index));
                let rx_len: usize = val.length(buf_idx) as usize;
                if rx_len > buf.len() {
                    *st = ReadState::Wait;
                    return Request::Ready(Err(EndpointError::BufferOverflow));
                }
                self.take_packet(buf_idx, rx_len, mem, buf);
                *st = ReadState::Rearm(buf_idx, val.pid(buf_idx), rx_len);
                Request::Read(Reg::EpOutBufferControl(index))
            },
            ReadState::Rearm(buf_idx, old_pid, rx_len) => {
                // Toggle PID for next transfer on this buffer and make it available again.
                let pid = !old_pid;
                let mps: u16 = self.info.max_packet_size;
                let current = EpBufferControl(input);
                write_out_buffer_control_double(ops, index, buf_idx, pid, mps, true, &current);
                *st = ReadState::Wait;
                Request::Ready(Ok(rx_len))
            },
        }
    }

    fn take_packet(&mut self, buf_idx: BufIdx, rx_len: usize, mem: &[u8], buf: &mut [u8])
        requires
            old(self)@.wf(Direction::Out),
            mem@.len() == EP_MEMORY_SIZE,
            rx_len <= old(self)@.buf.len,
            rx_len <= old(buf)@.len(),
            buf_idx is Buf1 ==> old(self)@.buf.double_buffered,
        ensures
            final(self)@ == old(self)@,
            final(buf)@ == with_packet(old(self)@, buf_idx, rx_len as int, mem@, old(buf)@),
    {
        let (head, tail) = buf.split_at_mut(rx_len);
        self.buf.read_buf(buf_idx, mem, head);
        assert(head@ + tail@ =~= with_packet(self@, buf_idx, rx_len as int, mem@, old(buf)@));
    }
}

impl<'d, T: Instance> Endpoint<'d, T, In> {
    /// A step of writing the single packet `buf`, where `mem` is the dual-port memory.
    pub fn write(
        &mut self,
        st: &mut WriteState,
        input: u32,
        mem: &mut [u8],
        buf: &[u8],
        ops: &mut OpList,
    ) -> (r: Request<Result<(), EndpointError>>)
        requires
            old(self)@.wf(Direction::In),
            old(mem)@.len() == EP_MEMORY_SIZE,
            write_can_be_at(old(self)@, *old(st), buf@.len() as int),
            old(ops).has_room(3),
        ensures
            final(self)@ == old(self)@,
            write_can_be_at(final(self)@, *final(st), buf@.len() as int),
            final(ops).wf(),
            r.valid(),
            final(ops)@ == old(ops)@ + write_next(
                old(self)@,
                *old(st),
                input,
                buf@.len() as int,
            ).ops,
            r == write_next(old(self)@, *old(st), input, buf@.len() as int).request,
            *final(st) == write_next(old(self)@, *old(st), input, buf@.len() as int).state,
            final(mem)@ == written_to(old(self)@, *old(st), input, old(mem)@, buf@),
    {
        let index: usize = self.info.addr.index();
        let reg = Reg::EpInBufferControl(index);
        match *st {
            WriteState::Begin => {
                if buf.len() > self.info.max_packet_size as usize {
                    assert(ops@ =~= old(ops)@ + Seq::<Op>::empty());
                    return Request::Ready(Err(EndpointError::BufferOverflow));
                }
                ops.push(Op::Register(WakerId::In(index)));
                assert(ops@ =~= old(ops)@ + seq![Op::Register(WakerId::In(index))]);
                *st = WriteState::Sample;
                Request::Read(reg)
            },
            WriteState::Wait => {
                ops.push(Op::Register(WakerId::In(index)));
                assert(ops@ =~= old(ops)@ + seq![Op::Register(WakerId::In(index))]);
                *st = WriteState::Sample;
                Request::Read(reg)
            },
            WriteState::Sample => {
                let val = EpBufferControl(input);
                assert(ops@ =~= old(ops)@ + Seq::<Op>::empty());
                if self.buf.is_double_buffered() {
                    // Check if either buffer is free (available cleared by hardware after send).
                    if !val.available(BufIdx::Buf0) || !val.available(BufIdx::Buf1) {
                        *st = WriteState::Choose(input);
                        return Request::Read(Reg::BuffCpuShouldHandle);
                    }
                    *st = WriteState::Wait;
                    return Request::Pending;
                }
                if val.available(BufIdx::Buf0) {
                    *st = WriteState::Wait;
                    return Request::Pending;
                }
                self.buf.write(mem, buf);
                let b0 = DoubleBufConfig {
                    pid: !val.pid(BufIdx::Buf0),
                    length: buf.len() as u16,
                    available: false,
                    full: true,
                };
                let first = EpBufferControl::new(b0, DoubleBufConfig::empty());
                let second = EpBufferControl::new(
                    DoubleBufConfig { available: true, ..b0 },
                    DoubleBufConfig::empty(),
                );
                push_handoff(ops, reg, first.0, second.0);
                *st = WriteState::Begin;
                Request::Ready(Ok(()))
            },
            WriteState::Choose(word) => {
                let val = EpBufferControl(word);
                assert(ops@ =~= old(ops)@ + Seq::<Op>::empty());
                let buf_idx = select_buffer(&val, ep_in(input, index));
                // Write data to the selected buffer.
                self.buf.write_buf(buf_idx, mem, buf);
                *st = WriteState::Submit(buf_idx, val.pid(buf_idx));
                Request::Read(reg)
            },
            WriteState::Submit(buf_idx, old_pid) => {
                // Toggle PID and mark buffer as full and available.
                let pid = !old_pid;
                let len: u16 = buf.len() as u16;
                let current = EpBufferControl(input);
                write_in_buffer_control_double(ops, index, buf_idx, pid, len, true, true, &current);
                *st = WriteState::Begin;
                Request::Ready(Ok(()))
            },
        }
    }
}

} // verus!
