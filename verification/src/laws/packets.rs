//! What each step of a wait, a read and a write does, said of the bits that the step is given.
use crate::buffer::{BufIdx, DoubleBufConfig};
use crate::endpoint::{
    packet_plausible, read_can_be_at, read_into, read_next, wait_enabled_next, write_can_be_at,
    write_next, written_to, EnableState, EndpointState, ReadState, WriteState,
};
use crate::laws::words::{
    bit, copied, count, data1, filled_up, half_value, held, joined, law_address_byte,
    law_double_words, law_endpoint_bits, law_flags, law_word_fields, law_word_value, opposite,
    replaced, stores_twice,
};
use crate::ops::{Next, Op, Request, WakerId};
use crate::regs::Reg;
use crate::types::{Direction, EndpointError};
use vstd::prelude::*;

verus! {

/// The step changes nothing and goes to sleep until the task is woken.
pub open spec fn sleeps<S, R>(s: Next<S, R>, waiting: S) -> bool {
    s.request is Pending && s.ops.len() == 0 && s.state == waiting
}

/// The step lets the task be woken and asks for a register.
pub open spec fn listens<S, R>(s: Next<S, R>, waker: WakerId, reg: Reg, looking: S) -> bool {
    &&& s.ops.len() == 1
    &&& s.ops[0] == Op::Register(waker)
    &&& s.request matches Request::Read(r) && r == reg
    &&& s.state == looking
}

/// The step does nothing but ask for a register.
pub open spec fn asks<S, R>(s: Next<S, R>, reg: Reg, looking: S) -> bool {
    &&& s.ops.len() == 0
    &&& s.request matches Request::Read(r) && r == reg
    &&& s.state == looking
}

/// The step ends the operation without any access.
pub open spec fn ends<S, R>(s: Next<S, R>, result: R, start: S) -> bool {
    &&& s.ops.len() == 0
    &&& s.request matches Request::Ready(r) && r == result
    &&& s.state == start
}

/// All buffers of the endpoint are with the controller.
pub open spec fn all_held(ep: EndpointState, word: u32) -> bool {
    held(word, BufIdx::Buf0) && (ep.buf.double_buffered ==> held(word, BufIdx::Buf1))
}

/// The buffer to serve: the one that the controller names, the other one where that is still with
/// the controller.
pub open spec fn next_buffer(word: u32, second: bool) -> BufIdx {
    if second && !held(word, BufIdx::Buf1) || !second && held(word, BufIdx::Buf0) {
        BufIdx::Buf1
    } else {
        BufIdx::Buf0
    }
}

/// Where a buffer lies.
pub open spec fn base(ep: EndpointState, b: BufIdx) -> int {
    if b is Buf0 {
        ep.buf.addr as int
    } else {
        ep.buf.addr + ep.buf.len
    }
}

/// A wait for an endpoint looks at the control register of the endpoint, once the task can be
/// woken, and is over exactly where the top bit is set.
pub proof fn law_wait_step(ep: EndpointState, dir: Direction, n: usize, input: u32)
    requires
        1 <= n < 16,
        ep.info.addr.raw % 128 == n,
    ensures
        ({
            let s = wait_enabled_next(ep, dir, EnableState::Wait, input);
            match dir {
                Direction::In => listens(
                    s,
                    WakerId::In(n),
                    Reg::EpInControl((n - 1) as usize),
                    EnableState::Sample,
                ),
                Direction::Out => listens(
                    s,
                    WakerId::Out(n),
                    Reg::EpOutControl((n - 1) as usize),
                    EnableState::Sample,
                ),
            }
        }),
        ({
            let s = wait_enabled_next(ep, dir, EnableState::Sample, input);
            if bit(input, 31) {
                ends(s, (), EnableState::Wait)
            } else {
                sleeps(s, EnableState::Wait)
            }
        }),
{
    law_address_byte(n, dir, ep.info.addr.raw);
    law_flags(input);
}

/// A read first lets the task be woken, then looks at the buffer control word of its endpoint.
pub proof fn law_read_listens(
    ep: EndpointState,
    n: usize,
    input: u32,
    mem: Seq<u8>,
    buf: Seq<u8>,
)
    requires
        n < 128,
        ep.info.addr.raw % 128 == n,
    ensures
        listens(
            read_next(ep, ReadState::Wait, input, buf.len() as int),
            WakerId::Out(n),
            Reg::EpOutBufferControl(n),
            ReadState::Sample,
        ),
        read_into(ep, ReadState::Wait, input, mem, buf) == buf,
{
    law_address_byte(n, Direction::Out, ep.info.addr.raw);
}

/// A read takes a packet only out of a buffer that the controller has given back. Where it has
/// given back none, the read sleeps with nothing changed. With two buffers it goes on to ask which
/// one is due. With one buffer it refuses a packet that has no room and leaves everything as it
/// is; any other packet is copied byte by byte, and the buffer goes back for a packet of the
/// longest kind with the other PID.
pub proof fn law_read_looks(ep: EndpointState, n: usize, word: u32, mem: Seq<u8>, buf: Seq<u8>)
    requires
        n < 128,
        ep.info.addr.raw % 128 == n,
        mem.len() == 4096,
        ep.buf.addr + ep.buf.len <= 4096,
        count(word, BufIdx::Buf0) <= ep.buf.len || count(word, BufIdx::Buf0) > buf.len(),
    ensures
        ({
            let s = read_next(ep, ReadState::Sample, word, buf.len() as int);
            let got = read_into(ep, ReadState::Sample, word, mem, buf);
            let len = count(word, BufIdx::Buf0);
            if all_held(ep, word) {
                sleeps(s, ReadState::Wait) && got == buf
            } else if ep.buf.double_buffered {
                asks(s, Reg::BuffCpuShouldHandle, ReadState::Choose(word)) && got == buf
            } else if len > buf.len() {
                ends(s, Err(EndpointError::BufferOverflow), ReadState::Wait) && got == buf
            } else {
                let pid = !data1(word, BufIdx::Buf0);
                let room = ep.info.max_packet_size as int;
                &&& s.request matches Request::Ready(Ok(r)) && r == len
                &&& s.state == ReadState::Wait
                &&& stores_twice(
                    s.ops,
                    Reg::EpOutBufferControl(n),
                    half_value(room, false, pid, false),
                    half_value(room, true, pid, false),
                )
                &&& copied(got, buf, mem, ep.buf.addr as int, len)
            }
        }),
{
    law_address_byte(n, Direction::Out, ep.info.addr.raw);
    law_word_fields(word, BufIdx::Buf0);
    law_word_fields(word, BufIdx::Buf1);
    let empty = DoubleBufConfig {
        pid: !data1(word, BufIdx::Buf0),
        length: ep.info.max_packet_size,
        available: false,
        full: false,
    };
    law_word_value(empty, crate::buffer::blank());
    law_word_value(empty.with_available(true), crate::buffer::blank());
}

/// A read from an endpoint with two buffers serves the buffer that the controller names, or the
/// other one where that has not come back; it refuses a packet that has no room and copies any
/// other one byte by byte, then looks at the word again.
pub proof fn law_read_chooses(
    ep: EndpointState,
    n: usize,
    word: u32,
    handle: u32,
    mem: Seq<u8>,
    buf: Seq<u8>,
)
    requires
        n < 16,
        ep.info.addr.raw % 128 == n,
        ep.buf.double_buffered,
        mem.len() == 4096,
        ep.buf.addr + 2 * ep.buf.len <= 4096,
        ({
            let b = next_buffer(word, bit(handle, (2 * n + 1) as u32));
            count(word, b) <= ep.buf.len || count(word, b) > buf.len()
        }),
    ensures
        ({
            let s = read_next(ep, ReadState::Choose(word), handle, buf.len() as int);
            let got = read_into(ep, ReadState::Choose(word), handle, mem, buf);
            let b = next_buffer(word, bit(handle, (2 * n + 1) as u32));
            let len = count(word, b);
            &&& !(held(word, BufIdx::Buf0) && held(word, BufIdx::Buf1)) ==> !held(word, b)
            &&& if len > buf.len() {
                ends(s, Err(EndpointError::BufferOverflow), ReadState::Wait) && got == buf
            } else {
                &&& asks(
                    s,
                    Reg::EpOutBufferControl(n),
                    ReadState::Rearm(b, data1(word, b), len as usize),
                )
                &&& copied(got, buf, mem, base(ep, b), len)
            }
        }),
{
    law_address_byte(n, Direction::Out, ep.info.addr.raw);
    law_word_fields(word, BufIdx::Buf0);
    law_word_fields(word, BufIdx::Buf1);
    law_endpoint_bits(handle, n as u32);
}

/// A read from an endpoint with two buffers ends with the length of the packet that it has taken:
/// the buffer goes back for a packet of the longest kind with the other PID, and the other buffer
/// stays as the fresh word has it.
pub proof fn law_read_rearms(
    ep: EndpointState,
    n: usize,
    b: BufIdx,
    pid: bool,
    len: usize,
    current: u32,
    mem: Seq<u8>,
    buf: Seq<u8>,
)
    requires
        n < 128,
        ep.info.addr.raw % 128 == n,
    ensures
        ({
            let s = read_next(ep, ReadState::Rearm(b, pid, len), current, buf.len() as int);
            let o = opposite(b);
            let kept = half_value(count(current, o), held(current, o), data1(current, o), false);
            let room = ep.info.max_packet_size as int;
            &&& s.request matches Request::Ready(Ok(r)) && r == len
            &&& s.state == ReadState::Wait
            &&& stores_twice(
                s.ops,
                Reg::EpOutBufferControl(n),
                joined(b, half_value(room, false, !pid, false), kept),
                joined(b, half_value(room, true, !pid, false), kept),
            )
            &&& read_into(ep, ReadState::Rearm(b, pid, len), current, mem, buf) == buf
        }),
{
    law_address_byte(n, Direction::Out, ep.info.addr.raw);
    law_double_words(b, !pid, ep.info.max_packet_size, false, true, current);
}

/// A step of a read is safe to take unless it would copy a packet that is longer than its buffer;
/// only an endpoint with two buffers comes to a choice or to a second look.
pub proof fn law_read_is_safe(ep: EndpointState, n: usize, st: ReadState, word: u32, room: int)
    requires
        n < 16,
        ep.info.addr.raw % 128 == n,
    ensures
        packet_plausible(ep, st, word, room) <==> (match st {
            ReadState::Sample => ep.buf.double_buffered || held(word, BufIdx::Buf0) || count(
                word,
                BufIdx::Buf0,
            ) <= ep.buf.len || count(word, BufIdx::Buf0) > room,
            ReadState::Choose(val) => {
                let b = next_buffer(val, bit(word, (2 * n + 1) as u32));
                count(val, b) <= ep.buf.len || count(val, b) > room
            },
            _ => true,
        }),
        read_can_be_at(ep, st) <==> (match st {
            ReadState::Wait => true,
            ReadState::Sample => true,
            _ => ep.buf.double_buffered,
        }),
{
    law_address_byte(n, Direction::Out, ep.info.addr.raw);
    law_word_fields(word, BufIdx::Buf0);
    law_endpoint_bits(word, n as u32);
    if let ReadState::Choose(val) = st {
        law_word_fields(val, BufIdx::Buf0);
        law_word_fields(val, BufIdx::Buf1);
    }
}

/// A write of a packet that is too long is refused before anything is done; any other one lets the
/// task be woken and looks at the buffer control word of its endpoint, and does so again each time
/// that the task is woken.
pub proof fn law_write_listens(
    ep: EndpointState,
    n: usize,
    input: u32,
    mem: Seq<u8>,
    data: Seq<u8>,
)
    requires
        n < 128,
        ep.info.addr.raw % 128 == n,
    ensures
        ({
            let s = write_next(ep, WriteState::Begin, input, data.len() as int);
            let again = write_next(ep, WriteState::Wait, input, data.len() as int);
            let waker = WakerId::In(n);
            let reg = Reg::EpInBufferControl(n);
            &&& if data.len() > ep.info.max_packet_size {
                ends(s, Err(EndpointError::BufferOverflow), WriteState::Begin)
            } else {
                listens(s, waker, reg, WriteState::Sample)
            }
            &&& listens(again, waker, reg, WriteState::Sample)
            &&& written_to(ep, WriteState::Begin, input, mem, data) == mem
            &&& written_to(ep, WriteState::Wait, input, mem, data) == mem
        }),
{
    law_address_byte(n, Direction::In, ep.info.addr.raw);
}

/// A write fills only a buffer that the controller has given back. Where it has given back none,
/// the write sleeps with nothing changed. With two buffers it goes on to ask which one is due.
/// With one buffer the packet is copied byte by byte, and the buffer goes to the controller with
/// the length of the packet, the mark of data to send and the other PID.
pub proof fn law_write_looks(ep: EndpointState, n: usize, word: u32, mem: Seq<u8>, data: Seq<u8>)
    requires
        n < 128,
        ep.info.addr.raw % 128 == n,
        data.len() <= 1023,
    ensures
        ({
            let s = write_next(ep, WriteState::Sample, word, data.len() as int);
            let after = written_to(ep, WriteState::Sample, word, mem, data);
            if all_held(ep, word) {
                sleeps(s, WriteState::Wait) && after == mem
            } else if ep.buf.double_buffered {
                asks(s, Reg::BuffCpuShouldHandle, WriteState::Choose(word)) && after == mem
            } else {
                let pid = !data1(word, BufIdx::Buf0);
                &&& s.request matches Request::Ready(Ok(_))
                &&& s.state == WriteState::Begin
                &&& stores_twice(
                    s.ops,
                    Reg::EpInBufferControl(n),
                    half_value(data.len() as int, false, pid, true),
                    half_value(data.len() as int, true, pid, true),
                )
                &&& replaced(after, mem, ep.buf.addr as int, data)
            }
        }),
{
    law_address_byte(n, Direction::In, ep.info.addr.raw);
    law_word_fields(word, BufIdx::Buf0);
    law_word_fields(word, BufIdx::Buf1);
    let full = DoubleBufConfig {
        pid: !data1(word, BufIdx::Buf0),
        length: data.len() as u16,
        available: false,
        full: true,
    };
    law_word_value(full, crate::buffer::blank());
    law_word_value(full.with_available(true), crate::buffer::blank());
}

/// A write to an endpoint with two buffers fills the buffer that the controller names, or the
/// other one where that has not come back, byte by byte, then looks at the word again.
pub proof fn law_write_chooses(
    ep: EndpointState,
    n: usize,
    word: u32,
    handle: u32,
    mem: Seq<u8>,
    data: Seq<u8>,
)
    requires
        n < 16,
        ep.info.addr.raw % 128 == n,
    ensures
        ({
            let s = write_next(ep, WriteState::Choose(word), handle, data.len() as int);
            let after = written_to(ep, WriteState::Choose(word), handle, mem, data);
            let b = next_buffer(word, bit(handle, (2 * n) as u32));
            &&& !(held(word, BufIdx::Buf0) && held(word, BufIdx::Buf1)) ==> !held(word, b)
            &&& asks(s, Reg::EpInBufferControl(n), WriteState::Submit(b, data1(word, b)))
            &&& replaced(after, mem, base(ep, b), data)
        }),
{
    law_address_byte(n, Direction::In, ep.info.addr.raw);
    law_word_fields(word, BufIdx::Buf0);
    law_word_fields(word, BufIdx::Buf1);
    law_endpoint_bits(handle, n as u32);
}

/// A write to an endpoint with two buffers ends when its buffer goes to the controller, with the
/// length of the packet, the mark of data to send and the other PID; the other buffer stays as the
/// fresh word has it.
pub proof fn law_write_submits(
    ep: EndpointState,
    n: usize,
    b: BufIdx,
    pid: bool,
    current: u32,
    mem: Seq<u8>,
    data: Seq<u8>,
)
    requires
        n < 128,
        ep.info.addr.raw % 128 == n,
        data.len() <= 1023,
    ensures
        ({
            let s = write_next(ep, WriteState::Submit(b, pid), current, data.len() as int);
            let o = opposite(b);
            let kept = half_value(
                count(current, o),
                held(current, o),
                data1(current, o),
                filled_up(current, o),
            );
            let len = data.len() as int;
            &&& s.request matches Request::Ready(Ok(_))
            &&& s.state == WriteState::Begin
            &&& stores_twice(
                s.ops,
                Reg::EpInBufferControl(n),
                joined(b, half_value(len, false, !pid, true), kept),
                joined(b, half_value(len, true, !pid, true), kept),
            )
            &&& written_to(ep, WriteState::Submit(b, pid), current, mem, data) == mem
        }),
{
    law_address_byte(n, Direction::In, ep.info.addr.raw);
    law_double_words(b, !pid, data.len() as u16, true, true, current);
}

/// A write goes beyond its first step only with a packet that is not too long, and only an endpoint
/// with two buffers comes to a choice or to a second look.
pub proof fn law_write_is_safe(ep: EndpointState, st: WriteState, len: int)
    ensures
        write_can_be_at(ep, st, len) <==> (match st {
            WriteState::Begin => true,
            WriteState::Wait => len <= ep.info.max_packet_size,
            WriteState::Sample => len <= ep.info.max_packet_size,
            _ => len <= ep.info.max_packet_size && ep.buf.double_buffered,
        }),
{
}

} // verus!
