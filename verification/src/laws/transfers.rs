//! What holds of whole transfers.
use crate::buffer::{
    available_at, blank, config_at, in_double_words, lemma_control_word_fields, length_at,
    out_double_words, pid_at, single_word, stall_at, BufIdx, DoubleBufConfig, EP_MEMORY_SIZE,
};
use crate::bus::{endpoint_waker, fresh_in_word, room_for};
use crate::control::{
    accept_next, data_in_into, data_in_next, data_out_into, data_out_next, reject_ops,
    set_address_ops, setup_next, single_handoff, status_in, status_out, AcceptState, DataState,
    SetupState, EP0_BUFFER, EP0_LEN,
};
use crate::endpoint::{
    chosen_buffer, loaded, preferred_buffer, read_into, read_next, rearmed, some_buffer_ready,
    wait_enabled_next, write_next, written_to, EnableState, EndpointState, ReadState,
    WriteState,
};
use crate::laws::buffers::{
    available_bit, law_in_handoff, law_out_handoff, law_single_handoff, lemma_short_length,
};
use crate::laws::registers::{lemma_run_push, touches};
use crate::ops::{handoff, run, Op, Request, WakerId};
use crate::regs::{
    any_set, ep_in_bit, ep_out_bit, Reg, SIE_STATUS_SETUP_REC, STALL_ARM_EP0_IN,
    STALL_ARM_EP0_OUT,
};
use crate::types::{Direction, EndpointError};
use vstd::prelude::*;

verus! {

/// A read from an endpoint with one buffer, once the controller has given the buffer back: the
/// reader gets the packet, and the buffer goes back with its PID flipped, its available bit last.
pub proof fn law_read_single(ep: EndpointState, val: u32, mem: Seq<u8>, buf: Seq<u8>, x: u32)
    requires
        ep.wf(Direction::Out),
        !ep.buf.double_buffered,
        mem.len() == EP_MEMORY_SIZE,
        !available_at(val, BufIdx::Buf0),
        length_at(val, BufIdx::Buf0) <= ep.buf.len,
        length_at(val, BufIdx::Buf0) <= buf.len(),
    ensures
        ({
            let reg = Reg::EpOutBufferControl(ep.index());
            let len = length_at(val, BufIdx::Buf0);
            let s0 = read_next(ep, ReadState::Wait, x, buf.len() as int);
            let s1 = read_next(ep, s0.state, val, buf.len() as int);
            let got = read_into(ep, s0.state, val, mem, buf);
            let first = single_word(rearmed(ep, !pid_at(val, BufIdx::Buf0)));
            let second = first | available_bit(BufIdx::Buf0);
            &&& s0.ops == seq![Op::Register(WakerId::Out(ep.index()))]
            &&& s0.request == Request::<Result<usize, EndpointError>>::Read(reg)
            &&& s1.request == Request::Ready(Ok::<usize, EndpointError>(len as usize))
            &&& got.take(len as int) == mem.subrange(ep.buf.addr as int, ep.buf.addr + len)
            &&& got.skip(len as int) == buf.skip(len as int)
            &&& s1.ops == handoff(reg, first, second)
            &&& config_at(second, BufIdx::Buf0) == (DoubleBufConfig {
                pid: !pid_at(val, BufIdx::Buf0),
                length: ep.info.max_packet_size,
                available: true,
                full: false,
            })
        }),
{
    let len = length_at(val, BufIdx::Buf0) as int;
    let got = read_into(ep, ReadState::Sample, val, mem, buf);
    assert(got.take(len) =~= mem.subrange(ep.buf.addr as int, ep.buf.addr + len));
    assert(got.skip(len) =~= buf.skip(len));
    law_single_handoff(rearmed(ep, !pid_at(val, BufIdx::Buf0)));
    lemma_short_length(ep.info.max_packet_size);
}

/// A read from an endpoint with two buffers, once the controller has given one of them back: the
/// reader gets the packet of a buffer that is ready, that one goes back with its PID flipped, its
/// available bit last, and the other buffer stays with whoever has it.
pub proof fn law_read_double(
    ep: EndpointState,
    val: u32,
    handle: u32,
    current: u32,
    mem: Seq<u8>,
    buf: Seq<u8>,
    x: u32,
)
    requires
        ep.wf(Direction::Out),
        ep.buf.double_buffered,
        mem.len() == EP_MEMORY_SIZE,
        some_buffer_ready(val),
        ({
            let b = chosen_buffer(val, preferred_buffer(ep_out_bit(handle, ep.index() as int)));
            length_at(val, b) <= ep.buf.len && length_at(val, b) <= buf.len()
        }),
    ensures
        ({
            let reg = Reg::EpOutBufferControl(ep.index());
            let b = chosen_buffer(val, preferred_buffer(ep_out_bit(handle, ep.index() as int)));
            let len = length_at(val, b);
            let room = buf.len() as int;
            let s0 = read_next(ep, ReadState::Wait, x, room);
            let s1 = read_next(ep, s0.state, val, room);
            let s2 = read_next(ep, s1.state, handle, room);
            let s3 = read_next(ep, s2.state, current, room);
            let got = read_into(ep, s1.state, handle, mem, buf);
            let words = out_double_words(
                b,
                !pid_at(val, b),
                ep.info.max_packet_size,
                true,
                current,
            );
            &&& !available_at(val, b)
            &&& s0.ops + s1.ops + s2.ops == seq![Op::Register(WakerId::Out(ep.index()))]
            &&& s0.request == Request::<Result<usize, EndpointError>>::Read(reg)
            &&& s1.request == Request::<Result<usize, EndpointError>>::Read(
                Reg::BuffCpuShouldHandle,
            )
            &&& s2.request == Request::<Result<usize, EndpointError>>::Read(reg)
            &&& s3.request == Request::Ready(Ok::<usize, EndpointError>(len as usize))
            &&& got.take(len as int) == mem.subrange(ep.buf.start(b), ep.buf.start(b) + len)
            &&& got.skip(len as int) == buf.skip(len as int)
            &&& read_into(ep, s0.state, val, mem, buf) == buf
            &&& read_into(ep, s2.state, current, mem, got) == got
            &&& s3.ops == handoff(reg, words.0, words.1)
            &&& words.1 == words.0 | available_bit(b)
            &&& config_at(words.1, b) == (DoubleBufConfig {
                pid: !pid_at(val, b),
                length: ep.info.max_packet_size,
                available: true,
                full: false,
            })
            &&& config_at(words.1, b.twin()) == (DoubleBufConfig {
                full: false,
                ..config_at(current, b.twin())
            })
        }),
{
    let b = chosen_buffer(val, preferred_buffer(ep_out_bit(handle, ep.index() as int)));
    let len = length_at(val, b) as int;
    let got = read_into(ep, ReadState::Choose(val), handle, mem, buf);
    assert(got.take(len) =~= mem.subrange(ep.buf.start(b), ep.buf.start(b) + len));
    assert(got.skip(len) =~= buf.skip(len));
    law_out_handoff(b, !pid_at(val, b), ep.info.max_packet_size, current);
    lemma_short_length(ep.info.max_packet_size);
    let room = buf.len() as int;
    let s0 = read_next(ep, ReadState::Wait, x, room);
    let s1 = read_next(ep, s0.state, val, room);
    let s2 = read_next(ep, s1.state, handle, room);
    assert(s0.ops + s1.ops + s2.ops =~= seq![Op::Register(WakerId::Out(ep.index()))]);
}

/// A packet that does not fit into the buffer of the reader is refused: the reader's buffer and
/// the registers stay as they are.
pub proof fn law_read_refused(
    ep: EndpointState,
    st: ReadState,
    input: u32,
    mem: Seq<u8>,
    buf: Seq<u8>,
)
    requires
        crate::endpoint::arrived(ep, st, input) matches Some((b, word)) && length_at(word, b)
            > buf.len(),
    ensures
        read_next(ep, st, input, buf.len() as int).request == Request::Ready(
            Err::<usize, EndpointError>(EndpointError::BufferOverflow),
        ),
        read_next(ep, st, input, buf.len() as int).ops == Seq::<Op>::empty(),
        read_into(ep, st, input, mem, buf) == buf,
{
}

/// A write to an endpoint with one buffer, once the controller has given the buffer back: the
/// packet lies in the buffer before the controller gets it, with its length, the flipped PID and
/// the mark that there is data, the available bit last.
pub proof fn law_write_single(ep: EndpointState, val: u32, mem: Seq<u8>, data: Seq<u8>, x: u32)
    requires
        ep.wf(Direction::In),
        !ep.buf.double_buffered,
        mem.len() == EP_MEMORY_SIZE,
        data.len() <= ep.info.max_packet_size,
        !available_at(val, BufIdx::Buf0),
    ensures
        ({
            let reg = Reg::EpInBufferControl(ep.index());
            let n = data.len() as int;
            let s0 = write_next(ep, WriteState::Begin, x, n);
            let s1 = write_next(ep, s0.state, val, n);
            let mem1 = written_to(ep, s0.state, val, mem, data);
            let first = single_word(loaded(!pid_at(val, BufIdx::Buf0), n as u16));
            let second = first | available_bit(BufIdx::Buf0);
            &&& s0.ops == seq![Op::Register(WakerId::In(ep.index()))]
            &&& s0.request == Request::<Result<(), EndpointError>>::Read(reg)
            &&& s1.request == Request::Ready(Ok::<(), EndpointError>(()))
            &&& mem1.subrange(ep.buf.addr as int, ep.buf.addr + n) == data
            &&& s1.ops == handoff(reg, first, second)
            &&& config_at(second, BufIdx::Buf0) == (DoubleBufConfig {
                pid: !pid_at(val, BufIdx::Buf0),
                length: n as u16,
                available: true,
                full: true,
            })
        }),
{
    let mem1 = written_to(ep, WriteState::Sample, val, mem, data);
    assert(mem1.subrange(ep.buf.addr as int, ep.buf.addr + data.len()) =~= data);
    law_single_handoff(loaded(!pid_at(val, BufIdx::Buf0), data.len() as u16));
    lemma_short_length(data.len() as u16);
}

/// A write to an endpoint with two buffers, once the controller has given one of them back: the
/// packet lies in a buffer that is free before the controller gets it, with its length, the
/// flipped PID and the mark that there is data, the available bit last; the other buffer stays as
/// it is, in memory and in the word.
pub proof fn law_write_double(
    ep: EndpointState,
    val: u32,
    handle: u32,
    current: u32,
    mem: Seq<u8>,
    data: Seq<u8>,
    x: u32,
)
    requires
        ep.wf(Direction::In),
        ep.buf.double_buffered,
        mem.len() == EP_MEMORY_SIZE,
        data.len() <= ep.info.max_packet_size,
        some_buffer_ready(val),
    ensures
        ({
            let reg = Reg::EpInBufferControl(ep.index());
            let b = chosen_buffer(val, preferred_buffer(ep_in_bit(handle, ep.index() as int)));
            let n = data.len() as int;
            let s0 = write_next(ep, WriteState::Begin, x, n);
            let s1 = write_next(ep, s0.state, val, n);
            let s2 = write_next(ep, s1.state, handle, n);
            let s3 = write_next(ep, s2.state, current, n);
            let mem1 = written_to(ep, s1.state, handle, mem, data);
            let words = in_double_words(b, !pid_at(val, b), n as u16, true, true, current);
            &&& !available_at(val, b)
            &&& s0.ops + s1.ops + s2.ops == seq![Op::Register(WakerId::In(ep.index()))]
            &&& s0.request == Request::<Result<(), EndpointError>>::Read(reg)
            &&& s1.request == Request::<Result<(), EndpointError>>::Read(Reg::BuffCpuShouldHandle)
            &&& s2.request == Request::<Result<(), EndpointError>>::Read(reg)
            &&& s3.request == Request::Ready(Ok::<(), EndpointError>(()))
            &&& mem1.subrange(ep.buf.start(b), ep.buf.start(b) + n) == data
            &&& mem1.subrange(ep.buf.start(b.twin()), ep.buf.end(b.twin())) == mem.subrange(
                ep.buf.start(b.twin()),
                ep.buf.end(b.twin()),
            )
            &&& written_to(ep, s0.state, val, mem, data) == mem
            &&& written_to(ep, s2.state, current, mem1, data) == mem1
            &&& s3.ops == handoff(reg, words.0, words.1)
            &&& words.1 == words.0 | available_bit(b)
            &&& config_at(words.1, b) == (DoubleBufConfig {
                pid: !pid_at(val, b),
                length: n as u16,
                available: true,
                full: true,
            })
            &&& config_at(words.1, b.twin()) == config_at(current, b.twin())
        }),
{
    let n = data.len() as int;
    let b = chosen_buffer(val, preferred_buffer(ep_in_bit(handle, ep.index() as int)));
    let mem1 = written_to(ep, WriteState::Choose(val), handle, mem, data);
    assert(mem1.subrange(ep.buf.start(b), ep.buf.start(b) + n) =~= data);
    crate::laws::buffers::law_buffers_apart(ep, Direction::In, b, mem, data);
    law_in_handoff(b, !pid_at(val, b), n as u16, current);
    lemma_short_length(n as u16);
    let s0 = write_next(ep, WriteState::Begin, x, n);
    let s1 = write_next(ep, s0.state, val, n);
    let s2 = write_next(ep, s1.state, handle, n);
    assert(s0.ops + s1.ops + s2.ops =~= seq![Op::Register(WakerId::In(ep.index()))]);
}

/// A packet that is longer than the endpoint allows is refused at once: memory and registers stay
/// as they are.
pub proof fn law_write_refused(ep: EndpointState, input: u32, mem: Seq<u8>, data: Seq<u8>)
    requires
        data.len() > ep.info.max_packet_size,
    ensures
        write_next(ep, WriteState::Begin, input, data.len() as int).request == Request::Ready(
            Err::<(), EndpointError>(EndpointError::BufferOverflow),
        ),
        write_next(ep, WriteState::Begin, input, data.len() as int).ops == Seq::<Op>::empty(),
        written_to(ep, WriteState::Begin, input, mem, data) == mem,
{
}

/// The packet that a write puts into an endpoint that was just enabled is DATA0 in the first
/// buffer and DATA1 in the second.
pub proof fn law_first_packets(ep: EndpointState, handle: u32, len: int)
    requires
        ep.wf(Direction::In),
        0 <= len <= ep.info.max_packet_size,
    ensures
        !ep.buf.double_buffered ==> ({
            let s = write_next(ep, WriteState::Sample, fresh_in_word(), len);
            &&& s.request == Request::Ready(Ok::<(), EndpointError>(()))
            &&& s.ops == single_handoff(
                Reg::EpInBufferControl(ep.index()),
                loaded(false, len as u16),
            )
        }),
        ep.buf.double_buffered ==> ({
            let b = preferred_buffer(ep_in_bit(handle, ep.index() as int));
            write_next(ep, WriteState::Choose(fresh_in_word()), handle, len).state
                == WriteState::Submit(b, !(b is Buf1))
        }),
{
    lemma_control_word_fields(room_for(true, 0), room_for(false, 0));
}

/// Packets alternate between DATA0 and DATA1, with two buffers and with one, in both directions:
/// where the controller gives a buffer back with the PID that it got, the next packet through that
/// buffer has the other one.
pub proof fn law_pids_alternate(
    b: BufIdx,
    length: u16,
    val: u32,
    current: u32,
    next_val: u32,
    next_current: u32,
)
    ensures
        ({
            let w = in_double_words(b, !pid_at(val, b), length, true, true, current).1;
            let w2 = in_double_words(b, !pid_at(next_val, b), length, true, true, next_current).1;
            &&& pid_at(w, b) != pid_at(val, b)
            &&& pid_at(next_val, b) == pid_at(w, b) ==> pid_at(w2, b) == pid_at(val, b)
        }),
        ({
            let w = out_double_words(b, !pid_at(val, b), length, true, current).1;
            let w2 = out_double_words(b, !pid_at(next_val, b), length, true, next_current).1;
            &&& pid_at(w, b) != pid_at(val, b)
            &&& pid_at(next_val, b) == pid_at(w, b) ==> pid_at(w2, b) == pid_at(val, b)
        }),
        ({
            let b = BufIdx::Buf0;
            let w = single_word(loaded(!pid_at(val, b), length).with_available(true));
            let w2 = single_word(loaded(!pid_at(next_val, b), length).with_available(true));
            &&& pid_at(w, b) != pid_at(val, b)
            &&& pid_at(next_val, b) == pid_at(w, b) ==> pid_at(w2, b) == pid_at(val, b)
        }),
        ({
            let b = BufIdx::Buf0;
            let w = single_word(room_for(!pid_at(val, b), length).with_available(true));
            let w2 = single_word(room_for(!pid_at(next_val, b), length).with_available(true));
            &&& pid_at(w, b) != pid_at(val, b)
            &&& pid_at(next_val, b) == pid_at(w, b) ==> pid_at(w2, b) == pid_at(val, b)
        }),
{
    let pid = !pid_at(val, BufIdx::Buf0);
    let next_pid = !pid_at(next_val, BufIdx::Buf0);
    lemma_control_word_fields(loaded(pid, length).with_available(true), blank());
    lemma_control_word_fields(loaded(next_pid, length).with_available(true), blank());
    lemma_control_word_fields(room_for(pid, length).with_available(true), blank());
    lemma_control_word_fields(room_for(next_pid, length).with_available(true), blank());
    law_in_handoff(b, !pid_at(val, b), length, current);
    law_in_handoff(b, !pid_at(next_val, b), length, next_current);
    law_out_handoff(b, !pid_at(val, b), length, current);
    law_out_handoff(b, !pid_at(next_val, b), length, next_current);
}

/// A wait for an endpoint to be enabled loses no news: it looks at the register right after it has
/// let itself be woken, and only such a look sends it to sleep.
pub proof fn law_wait_enabled_waits(
    ep: EndpointState,
    dir: Direction,
    st: EnableState,
    input: u32,
)
    ensures
        ({
            let s = wait_enabled_next(ep, dir, st, input);
            &&& s.state is Sample ==> s.ops == seq![
                Op::Register(endpoint_waker(dir, ep.index())),
            ] && s.request is Read
            &&& s.request is Pending ==> st is Sample && s.state is Wait && s.ops == Seq::<
                Op,
            >::empty()
        }),
{
}

/// A read loses no news: it looks at the register right after it has let itself be woken, and only
/// such a look sends it to sleep, with nothing changed.
pub proof fn law_read_waits(
    ep: EndpointState,
    st: ReadState,
    input: u32,
    mem: Seq<u8>,
    buf: Seq<u8>,
)
    ensures
        ({
            let s = read_next(ep, st, input, buf.len() as int);
            &&& s.state is Sample ==> s.ops == seq![Op::Register(WakerId::Out(ep.index()))]
                && s.request is Read
            &&& s.request is Pending ==> st is Sample && s.state is Wait && s.ops == Seq::<
                Op,
            >::empty() && read_into(ep, st, input, mem, buf) == buf
        }),
{
}

/// A write loses no news: it looks at the register right after it has let itself be woken, and
/// only such a look sends it to sleep, with nothing changed.
pub proof fn law_write_waits(
    ep: EndpointState,
    st: WriteState,
    input: u32,
    mem: Seq<u8>,
    data: Seq<u8>,
)
    ensures
        ({
            let s = write_next(ep, st, input, data.len() as int);
            &&& s.state is Sample ==> s.ops == seq![Op::Register(WakerId::In(ep.index()))]
                && s.request is Read
            &&& s.request is Pending ==> st is Sample && s.state is Wait && s.ops == Seq::<
                Op,
            >::empty() && written_to(ep, st, input, mem, data) == mem
        }),
{
}

/// A wait for a SETUP packet loses no news: it looks at the register right after it has let itself
/// be woken, and only such a look sends it to sleep, with nothing changed.
pub proof fn law_setup_waits(st: SetupState, input: u32, mem: Seq<u8>)
    ensures
        ({
            let s = setup_next(st, input, mem);
            &&& s.state is Sample ==> s.ops.last() == Op::Register(WakerId::Out(0))
                && s.request is Read
            &&& s.request is Pending ==> st is Sample && s.state is Wait && s.ops == Seq::<
                Op,
            >::empty()
        }),
{
}

/// A transfer of a data packet loses no news: it looks at the register right after it has let
/// itself be woken, and only such a look sends it to sleep, with nothing changed.
pub proof fn law_data_waits(
    mps: u16,
    st: DataState,
    input: u32,
    n: int,
    last: bool,
    mem: Seq<u8>,
    buf: Seq<u8>,
)
    ensures
        ({
            let s = data_out_next(mps, st, input, n);
            &&& s.state is Sample ==> s.ops.last() == Op::Register(WakerId::Out(0))
                && s.request is Read
            &&& s.request is Pending ==> st is Sample && s.state is Wait && s.ops == Seq::<
                Op,
            >::empty() && data_out_into(st, input, mem, buf) == buf
        }),
        ({
            let s = data_in_next(st, input, n, last);
            &&& s.state is Sample ==> s.ops.last() == Op::Register(WakerId::In(0))
                && s.request is Read
            &&& s.request is Pending ==> st is Sample && s.state is Wait && s.ops == Seq::<
                Op,
            >::empty() && data_in_into(st, mem, buf) == mem
        }),
{
}

/// An acceptance loses no news: it looks at the register right after it has let itself be woken,
/// and only such a look sends it to sleep, with nothing changed.
pub proof fn law_accept_waits(st: AcceptState, input: u32, done: Seq<Op>)
    ensures
        ({
            let s = accept_next(st, input, done);
            &&& s.state is Sample ==> s.ops.last() == Op::Register(WakerId::In(0))
                && s.request is Read
            &&& s.request is Pending ==> st is Sample && s.state is Wait && s.ops == Seq::<
                Op,
            >::empty()
        }),
{
}

/// After a SETUP packet the first data packet in either direction is DATA1, and the control pipe
/// has no packet under way.
pub proof fn law_setup_then_data1(
    regs: Map<Reg, u32>,
    input: u32,
    mem: Seq<u8>,
    mps: u16,
    len: int,
    last: bool,
)
    requires
        any_set(input, SIE_STATUS_SETUP_REC),
        0 <= len <= EP0_LEN,
    ensures
        ({
            let after = run(setup_next(SetupState::Sample, input, mem).ops, regs);
            let word_in = after[Reg::EpInBufferControl(0)];
            let word_out = after[Reg::EpOutBufferControl(0)];
            &&& !available_at(word_in, BufIdx::Buf0)
            &&& !available_at(word_out, BufIdx::Buf0)
            &&& data_in_next(DataState::Arm, word_in, len, last).ops == single_handoff(
                Reg::EpInBufferControl(0),
                loaded(true, len as u16),
            ) + seq![Op::Register(WakerId::In(0))]
            &&& data_out_next(mps, DataState::Arm, word_out, len).ops == single_handoff(
                Reg::EpOutBufferControl(0),
                room_for(true, mps),
            ) + seq![Op::Register(WakerId::Out(0))]
        }),
{
    let ops = setup_next(SetupState::Sample, input, mem).ops;
    let one = Seq::<Op>::empty().push(ops[0]);
    let two = one.push(ops[1]);
    assert(ops =~= two.push(ops[2]));
    lemma_run_push(two, ops[2], regs);
    lemma_run_push(one, ops[1], regs);
    lemma_control_word_fields(blank(), blank());
}

/// Sending a data packet: it lies in the buffer of endpoint 0 before the controller gets it, with
/// its length, the flipped PID and the mark that there is data; the result comes once the
/// controller has given the buffer back, and after the last packet the status stage is open.
pub proof fn law_data_in(
    val: u32,
    done: u32,
    mem: Seq<u8>,
    data: Seq<u8>,
    last: bool,
    x: u32,
)
    requires
        mem.len() == EP_MEMORY_SIZE,
        data.len() <= EP0_LEN,
        !available_at(done, BufIdx::Buf0),
    ensures
        ({
            let n = data.len() as int;
            let s0 = data_in_next(DataState::Begin, x, n, last);
            let s1 = data_in_next(s0.state, val, n, last);
            let s2 = data_in_next(s1.state, done, n, last);
            let mem1 = data_in_into(DataState::Begin, mem, data);
            let full = loaded(!pid_at(val, BufIdx::Buf0), n as u16);
            &&& mem1.subrange(EP0_BUFFER as int, EP0_BUFFER + n) == data
            &&& s0.ops == Seq::<Op>::empty()
            &&& s1.ops == single_handoff(Reg::EpInBufferControl(0), full) + seq![
                Op::Register(WakerId::In(0)),
            ]
            &&& config_at(single_word(full.with_available(true)), BufIdx::Buf0)
                == full.with_available(true)
            &&& s2.request == Request::Ready(Ok::<(), EndpointError>(()))
            &&& s2.ops == (if last {
                status_out()
            } else {
                Seq::empty()
            })
        }),
{
    let mem1 = data_in_into(DataState::Begin, mem, data);
    assert(mem1.subrange(EP0_BUFFER as int, EP0_BUFFER + data.len()) =~= data);
    law_single_handoff(loaded(!pid_at(val, BufIdx::Buf0), data.len() as u16));
    lemma_short_length(data.len() as u16);
}

/// Receiving a data packet: the buffer of endpoint 0 goes to the controller with its PID flipped,
/// and once it is back the reader gets the packet.
pub proof fn law_data_out(mps: u16, val: u32, done: u32, mem: Seq<u8>, buf: Seq<u8>, x: u32)
    requires
        mem.len() == EP_MEMORY_SIZE,
        !available_at(done, BufIdx::Buf0),
        length_at(done, BufIdx::Buf0) <= EP0_LEN,
        length_at(done, BufIdx::Buf0) <= buf.len(),
    ensures
        ({
            let room = buf.len() as int;
            let len = length_at(done, BufIdx::Buf0);
            let s0 = data_out_next(mps, DataState::Begin, x, room);
            let s1 = data_out_next(mps, s0.state, val, room);
            let s2 = data_out_next(mps, s1.state, done, room);
            let got = data_out_into(s1.state, done, mem, buf);
            &&& s0.ops == Seq::<Op>::empty()
            &&& s1.ops == single_handoff(
                Reg::EpOutBufferControl(0),
                room_for(!pid_at(val, BufIdx::Buf0), mps),
            ) + seq![Op::Register(WakerId::Out(0))]
            &&& s2.request == Request::Ready(Ok::<usize, EndpointError>(len as usize))
            &&& s2.ops == Seq::<Op>::empty()
            &&& got.take(len as int) == mem.subrange(EP0_BUFFER as int, EP0_BUFFER + len)
            &&& got.skip(len as int) == buf.skip(len as int)
        }),
{
    let len = length_at(done, BufIdx::Buf0) as int;
    let got = data_out_into(DataState::Sample, done, mem, buf);
    assert(got.take(len) =~= mem.subrange(EP0_BUFFER as int, EP0_BUFFER + len));
    assert(got.skip(len) =~= buf.skip(len));
}

/// A data packet for the host that is longer than the buffer of endpoint 0 is refused at once, and
/// one from the host that is longer than the buffer of the reader is refused when it is there;
/// neither memory nor registers change.
pub proof fn law_data_refused(
    mps: u16,
    done: u32,
    mem: Seq<u8>,
    data: Seq<u8>,
    buf: Seq<u8>,
    last: bool,
    x: u32,
)
    ensures
        data.len() > EP0_LEN ==> {
            &&& data_in_next(DataState::Begin, x, data.len() as int, last).request
                == Request::Ready(Err::<(), EndpointError>(EndpointError::BufferOverflow))
            &&& data_in_next(DataState::Begin, x, data.len() as int, last).ops == Seq::<
                Op,
            >::empty()
            &&& data_in_into(DataState::Begin, mem, data) == mem
        },
        !available_at(done, BufIdx::Buf0) && length_at(done, BufIdx::Buf0) > buf.len() ==> {
            &&& data_out_next(mps, DataState::Sample, done, buf.len() as int).request
                == Request::Ready(Err::<usize, EndpointError>(EndpointError::BufferOverflow))
            &&& data_out_next(mps, DataState::Sample, done, buf.len() as int).ops == Seq::<
                Op,
            >::empty()
            &&& data_out_into(DataState::Sample, done, mem, buf) == buf
        },
{
}

/// The packets of a status stage are empty and DATA1.
pub proof fn law_status_packets()
    ensures
        status_out() == single_handoff(Reg::EpOutBufferControl(0), room_for(true, 0)),
        status_in() == single_handoff(Reg::EpInBufferControl(0), loaded(true, 0)),
        config_at(single_word(room_for(true, 0).with_available(true)), BufIdx::Buf0) == (
        DoubleBufConfig { pid: true, length: 0, available: true, full: false }),
        config_at(single_word(loaded(true, 0).with_available(true)), BufIdx::Buf0) == (
        DoubleBufConfig { pid: true, length: 0, available: true, full: true }),
{
    law_single_handoff(room_for(true, 0));
    law_single_handoff(loaded(true, 0));
    lemma_short_length(0);
}

/// The device does not take its new address before the status packet of the SET_ADDRESS request is
/// sent: the address register is stored into exactly in the step that finds the packet gone.
pub proof fn law_address_after_status(st: AcceptState, input: u32, addr: u8)
    ensures
        (exists|i: int|
            0 <= i < accept_next(st, input, set_address_ops(addr)).ops.len() && touches(
                #[trigger] accept_next(st, input, set_address_ops(addr)).ops[i],
                Reg::AddrEndp,
            )) <==> st is Sample && !available_at(input, BufIdx::Buf0),
        st is Sample && !available_at(input, BufIdx::Buf0) <==> accept_next(
            st,
            input,
            set_address_ops(addr),
        ).request is Ready,
{
    let ops = accept_next(st, input, set_address_ops(addr)).ops;
    if st is Sample && !available_at(input, BufIdx::Buf0) {
        assert(touches(ops[0], Reg::AddrEndp));
    }
}

/// After a request was rejected, endpoint 0 answers with a STALL in both directions, and is armed
/// to do so.
pub proof fn law_reject_stalls(regs: Map<Reg, u32>)
    ensures
        ({
            let after = run(reject_ops(), regs);
            &&& stall_at(after[Reg::EpInBufferControl(0)])
            &&& stall_at(after[Reg::EpOutBufferControl(0)])
            &&& after[Reg::EpStallArm] == regs[Reg::EpStallArm] | STALL_ARM_EP0_IN
                | STALL_ARM_EP0_OUT
        }),
{
    let ops = reject_ops();
    let one = Seq::<Op>::empty().push(ops[0]);
    let two = one.push(ops[1]);
    assert(ops =~= two.push(ops[2]));
    lemma_run_push(two, ops[2], regs);
    lemma_run_push(one, ops[1], regs);
    lemma_run_push(Seq::empty(), ops[0], regs);
    assert(run(Seq::<Op>::empty(), regs) == regs);
    let arm = regs[Reg::EpStallArm];
    assert((0x0000_0800u32 >> 11u32) & 1 == 1) by (bit_vector);
    assert(arm | (0x0000_0001u32 | 0x0000_0002u32) == arm | 0x0000_0001u32 | 0x0000_0002u32)
        by (bit_vector);
}

} // verus!
