//! What each step of the control pipe does, said of the bits and bytes that the step is given.
use crate::buffer::{blank, BufIdx, DoubleBufConfig};
use crate::control::{
    accept_next, data_in_can_be_at, data_in_into, data_in_next, data_out_into, data_out_next,
    data_plausible, packet_request, reject_ops, set_address_ops, setup_next, AcceptState, DataState,
    SetupState,
};
use crate::laws::packets::{asks, ends, listens, sleeps};
use crate::laws::words::{
    bit, copied, count, data1, half_value, held, law_flags, law_small_fields, law_word_fields,
    law_word_value, replaced, stores_twice,
};
use crate::ops::{Op, Request, WakerId};
use crate::regs::Reg;
use crate::types::EndpointError;
use vstd::prelude::*;

verus! {

/// The first three operations hand endpoint 0 over, the fourth lets the task be woken.
pub open spec fn hands_over_and_listens(
    ops: Seq<Op>,
    waker: WakerId,
    reg: Reg,
    first: int,
    last: int,
) -> bool {
    &&& ops.len() == 4
    &&& stores_twice(ops.take(3), reg, first, last)
    &&& ops[3] == Op::Register(waker)
}

/// A wait for a SETUP packet, whatever `r` the step answers with: it switches the interrupt on,
/// lets the task be woken and looks at the status; without a packet it sleeps. With one, the
/// answer has the eight bytes at the start of the memory, each as it is, and the packet is
/// acknowledged and both directions of endpoint 0 are cleared.
pub proof fn law_setup_step(st: SetupState, input: u32, mem: Seq<u8>, r: Request<[u8; 8]>)
    requires
        mem.len() == 4096,
        packet_request(r) == setup_next(st, input, mem).request,
    ensures
        ({
            let s = setup_next(st, input, mem);
            match st {
                SetupState::Begin => {
                    &&& s.ops.len() == 2
                    &&& s.ops[0] == Op::SetBits { reg: Reg::Inte, value: 0x1_0000 }
                    &&& s.ops[1] == Op::Register(WakerId::Out(0))
                    &&& r == Request::<[u8; 8]>::Read(Reg::SieStatus)
                    &&& s.state == SetupState::Sample
                },
                SetupState::Wait => {
                    &&& s.ops.len() == 1
                    &&& s.ops[0] == Op::Register(WakerId::Out(0))
                    &&& r == Request::<[u8; 8]>::Read(Reg::SieStatus)
                    &&& s.state == SetupState::Sample
                },
                SetupState::Sample => if bit(input, 17) {
                    &&& r matches Request::Ready(packet) && forall|i: int|
                        0 <= i < 8 ==> #[trigger] packet@[i] == mem[i]
                    &&& s.state == SetupState::Begin
                    &&& s.ops.len() == 3
                    &&& s.ops[0] == Op::Write { reg: Reg::SieStatus, value: 0x2_0000 }
                    &&& s.ops[1] == Op::Write { reg: Reg::EpInBufferControl(0), value: 0 }
                    &&& s.ops[2] == Op::Write { reg: Reg::EpOutBufferControl(0), value: 0 }
                } else {
                    &&& r is Pending
                    &&& s.ops.len() == 0
                    &&& s.state == SetupState::Wait
                },
            }
        }),
{
    law_flags(input);
    law_word_value(blank(), blank());
    if st is Sample && bit(input, 17) {
        let packet = r->Ready_0;
        assert(packet@ == mem.subrange(0, 8));
    }
}

/// Receiving a data packet: the buffer of endpoint 0 goes to the controller, for a packet of the
/// longest kind with the other PID; once it is back, a packet that has no room is refused with
/// nothing changed, and any other one is copied byte by byte.
pub proof fn law_data_out_step(
    mps: u16,
    st: DataState,
    word: u32,
    mem: Seq<u8>,
    buf: Seq<u8>,
)
    requires
        mem.len() == 4096,
        st is Sample ==> count(word, BufIdx::Buf0) <= 64 || count(word, BufIdx::Buf0) > buf.len(),
    ensures
        ({
            let s = data_out_next(mps, st, word, buf.len() as int);
            let got = data_out_into(st, word, mem, buf);
            let reg = Reg::EpOutBufferControl(0);
            let pid = !data1(word, BufIdx::Buf0);
            let len = count(word, BufIdx::Buf0);
            match st {
                DataState::Begin => asks(s, reg, DataState::Arm) && got == buf,
                DataState::Arm => {
                    &&& hands_over_and_listens(
                        s.ops,
                        WakerId::Out(0),
                        reg,
                        half_value(mps as int, false, pid, false),
                        half_value(mps as int, true, pid, false),
                    )
                    &&& s.request matches Request::Read(r) && r == reg
                    &&& s.state == DataState::Sample
                    &&& got == buf
                },
                DataState::Wait => listens(s, WakerId::Out(0), reg, DataState::Sample) && got
                    == buf,
                DataState::Sample => if held(word, BufIdx::Buf0) {
                    sleeps(s, DataState::Wait) && got == buf
                } else if len > buf.len() {
                    ends(s, Err(EndpointError::BufferOverflow), DataState::Begin) && got == buf
                } else {
                    &&& s.request matches Request::Ready(Ok(r)) && r == len
                    &&& s.ops.len() == 0
                    &&& s.state == DataState::Begin
                    &&& copied(got, buf, mem, 0x100, len)
                },
            }
        }),
{
    law_word_fields(word, BufIdx::Buf0);
    let empty = DoubleBufConfig {
        pid: !data1(word, BufIdx::Buf0),
        length: mps,
        available: false,
        full: false,
    };
    law_word_value(empty, blank());
    law_word_value(empty.with_available(true), blank());
}

/// A step of receiving is safe to take unless it would copy a packet of more than 64 bytes; the
/// sending of more than 64 bytes does not go beyond its first step.
pub proof fn law_data_is_safe(st: DataState, word: u32, room: int)
    ensures
        data_plausible(st, word, room) <==> (st is Sample && !held(word, BufIdx::Buf0) ==> count(
            word,
            BufIdx::Buf0,
        ) <= 64 || count(word, BufIdx::Buf0) > room),
        data_in_can_be_at(st, room) <==> (!(st is Begin) ==> room <= 64),
{
    law_word_fields(word, BufIdx::Buf0);
}

/// Sending a data packet: more than 64 bytes are refused with nothing changed; up to 64 bytes are
/// copied byte by byte into the buffer of endpoint 0, which goes to the controller with the length
/// of the packet, the mark of data to send and the other PID. Once it is back, the sending is done,
/// and after the last packet endpoint 0 is open for an empty DATA1 packet of the host.
pub proof fn law_data_in_step(
    st: DataState,
    word: u32,
    mem: Seq<u8>,
    data: Seq<u8>,
    last: bool,
)
    requires
        !(st is Begin) ==> data.len() <= 64,
    ensures
        ({
            let s = data_in_next(st, word, data.len() as int, last);
            let after = data_in_into(st, mem, data);
            let reg = Reg::EpInBufferControl(0);
            let pid = !data1(word, BufIdx::Buf0);
            let len = data.len() as int;
            match st {
                DataState::Begin => if len > 64 {
                    ends(s, Err(EndpointError::BufferOverflow), DataState::Begin) && after == mem
                } else {
                    asks(s, reg, DataState::Arm) && replaced(after, mem, 0x100, data)
                },
                DataState::Arm => {
                    &&& hands_over_and_listens(
                        s.ops,
                        WakerId::In(0),
                        reg,
                        half_value(len, false, pid, true),
                        half_value(len, true, pid, true),
                    )
                    &&& s.request matches Request::Read(r) && r == reg
                    &&& s.state == DataState::Sample
                    &&& after == mem
                },
                DataState::Wait => listens(s, WakerId::In(0), reg, DataState::Sample) && after
                    == mem,
                DataState::Sample => if held(word, BufIdx::Buf0) {
                    sleeps(s, DataState::Wait) && after == mem
                } else {
                    &&& s.request matches Request::Ready(Ok(_))
                    &&& s.state == DataState::Begin
                    &&& if last {
                        stores_twice(s.ops, Reg::EpOutBufferControl(0), 0x2000, 0x2400)
                    } else {
                        s.ops.len() == 0
                    }
                    &&& after == mem
                },
            }
        }),
{
    law_word_fields(word, BufIdx::Buf0);
    let full = DoubleBufConfig {
        pid: !data1(word, BufIdx::Buf0),
        length: data.len() as u16,
        available: false,
        full: true,
    };
    law_word_value(full, blank());
    law_word_value(full.with_available(true), blank());
    let open = DoubleBufConfig { pid: true, length: 0, available: false, full: false };
    law_word_value(open, blank());
    law_word_value(open.with_available(true), blank());
}

/// Accepting a request offers an empty DATA1 packet to the host and is done once the controller
/// has given the buffer back; where the request has set an address, that is stored then and not
/// before.
pub proof fn law_accept_step(st: AcceptState, word: u32, addr: u8)
    ensures
        ({
            let s = accept_next(st, word, Seq::empty());
            let t = accept_next(st, word, set_address_ops(addr));
            let reg = Reg::EpInBufferControl(0);
            match st {
                AcceptState::Begin => {
                    &&& hands_over_and_listens(s.ops, WakerId::In(0), reg, 0xa000, 0xa400)
                    &&& s.request matches Request::Read(r) && r == reg
                    &&& s.state == AcceptState::Sample
                    &&& t == s
                },
                AcceptState::Wait => listens(s, WakerId::In(0), reg, AcceptState::Sample) && t
                    == s,
                AcceptState::Sample => if held(word, BufIdx::Buf0) {
                    sleeps(s, AcceptState::Wait) && t == s
                } else {
                    &&& ends(s, (), AcceptState::Begin)
                    &&& t.request == s.request
                    &&& t.state == s.state
                    &&& t.ops.len() == 1
                    &&& t.ops[0] matches Op::Write { reg: Reg::AddrEndp, value } && value == addr
                        % 128
                },
            }
        }),
{
    law_word_fields(word, BufIdx::Buf0);
    law_small_fields(addr, 0);
    let full = DoubleBufConfig { pid: true, length: 0, available: false, full: true };
    law_word_value(full, blank());
    law_word_value(full.with_available(true), blank());
}

/// Rejecting a request arms the stall of endpoint 0 in both directions, then sets it for OUT and
/// for IN, and does nothing else.
pub proof fn law_reject_step()
    ensures
        reject_ops().len() == 3,
        reject_ops()[0] == (Op::SetBits { reg: Reg::EpStallArm, value: 3 }),
        reject_ops()[1] == (Op::Write { reg: Reg::EpOutBufferControl(0), value: 0x800 }),
        reject_ops()[2] == (Op::Write { reg: Reg::EpInBufferControl(0), value: 0x800 }),
{
    assert(1u32 | 2u32 == 3) by (bit_vector);
}

} // verus!
