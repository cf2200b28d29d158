//! What the bus, the interrupt handler and the bring-up do, said of the bits that they are given.
use crate::buffer::{blank, BufIdx, DoubleBufConfig};
use crate::bus::{
    disable_all, enable_ops, is_stalled_next, poll_next, reset_ops, stall_ops, BusState, PollState,
    StallState,
};
use crate::driver::{initial_state, power_up, start_up, EndpointData};
use crate::interrupt::{buffer_wakes, endpoint_wakes, irq_next, IrqState};
use crate::laws::packets::{asks, ends};
use crate::laws::words::{
    bit, if_on, law_address_byte, law_endpoint_bits, law_flags, law_small_fields, law_word_fields,
    law_word_value, stores_twice,
};
use crate::ops::{Op, Request, WakerId};
use crate::regs::Reg;
use crate::types::{Direction, EndpointAddress, EndpointType, Event};
use vstd::prelude::*;

verus! {

/// The first poll reports power, whatever the registers hold; each later one lets the task be
/// woken and asks for the status word, then for the interrupt word, and keeps the status word.
pub proof fn law_poll_looks(b: BusState, input: u32)
    ensures
        ({
            let s = poll_next(b, PollState::Begin, input);
            &&& s.ops.len() == 1
            &&& s.ops[0] == Op::Register(WakerId::Bus)
            &&& if b.inited {
                &&& s.request == Request::<Event>::Read(Reg::SieStatus)
                &&& s.state == PollState::Status
            } else {
                &&& s.request == Request::Ready(Event::PowerDetected)
                &&& s.state == PollState::Begin
            }
        }),
        asks(poll_next(b, PollState::Status, input), Reg::Intr, PollState::Interrupts(input)),
{
}

/// The host has resumed the bus.
pub open spec fn resumed(status: u32, interrupts: u32) -> bool {
    bit(status, 11) || bit(interrupts, 15)
}

/// A poll reports a resume exactly where one of the two words tells of it, a reset exactly where
/// the status word tells of it and there is no resume, and a suspend exactly where both words tell
/// of it and there is neither; no other bit matters, and where there is nothing to report the poll
/// sleeps. The event is acknowledged with its own bit; without one the three interrupts of the bus
/// are switched on.
pub proof fn law_poll_answers(b: BusState, status: u32, interrupts: u32)
    ensures
        ({
            let s = poll_next(b, PollState::Interrupts(status), interrupts);
            let resume = resumed(status, interrupts);
            let suspend = bit(status, 4) && bit(interrupts, 14);
            &&& s.request == Request::Ready(Event::Resume) <==> resume
            &&& s.request == Request::Ready(Event::Reset) <==> bit(status, 19) && !resume
            &&& s.request == Request::Ready(Event::Suspend) <==> suspend && !bit(status, 19)
                && !resume
            &&& s.request is Pending <==> !suspend && !bit(status, 19) && !resume
            &&& s.state == PollState::Begin
            &&& s.request == Request::Ready(Event::Resume) ==> s.ops == seq![
                Op::Write { reg: Reg::SieStatus, value: 0x800 },
            ]
            &&& s.request == Request::Ready(Event::Reset) ==> s.ops == reset_ops()
            &&& s.request == Request::Ready(Event::Suspend) ==> s.ops == seq![
                Op::Write { reg: Reg::SieStatus, value: 0x10 },
            ]
            &&& s.request is Pending ==> s.ops == seq![
                Op::SetBits { reg: Reg::Inte, value: 0xd000 },
            ]
        }),
{
    law_flags(status);
    law_flags(interrupts);
    assert(0x1000u32 | 0x8000u32 | 0x4000u32 == 0xd000) by (bit_vector);
}

/// A reset is acknowledged together with a SETUP packet that it has cut off, all buffers are
/// cleared, and the device has address 0; then the enable bit of each endpoint from 1 to 15 is
/// cleared, IN before OUT, and the tasks of all endpoints are woken, first IN, then OUT.
pub proof fn law_reset_order(i: usize)
    ensures
        reset_ops().len() == 65,
        reset_ops()[0] == (Op::Write { reg: Reg::SieStatus, value: 0xa_0000 }),
        reset_ops()[1] == (Op::Write { reg: Reg::BuffStatus, value: 0xffff_ffff }),
        reset_ops()[2] == (Op::Write { reg: Reg::AddrEndp, value: 0 }),
        1 <= i < 16 ==> reset_ops()[2 * i + 1] == (Op::Modify {
            reg: Reg::EpInControl((i - 1) as usize),
            mask: 0x8000_0000,
            value: 0,
        }),
        1 <= i < 16 ==> reset_ops()[2 * i + 2] == (Op::Modify {
            reg: Reg::EpOutControl((i - 1) as usize),
            mask: 0x8000_0000,
            value: 0,
        }),
        i < 16 ==> reset_ops()[33 + i] == Op::Wake(WakerId::In(i)),
        i < 16 ==> reset_ops()[49 + i] == Op::Wake(WakerId::Out(i)),
{
    law_small_fields(0, 0);
    assert(0x8_0000u32 | 0x2_0000u32 == 0xa_0000) by (bit_vector);
    if 1 <= i < 16 {
        assert(reset_ops()[2 * i + 1] == disable_all()[2 * i - 2]);
        assert(reset_ops()[2 * i + 2] == disable_all()[2 * i - 1]);
    }
}

/// Setting or clearing a stall: endpoint 0 is armed for it or not, in its direction alone, then
/// one bit of the buffer control word gets the new value, and the task of the endpoint is woken.
pub proof fn law_stall_access(raw: u8, stalled: bool)
    ensures
        ({
            let ops = stall_ops(EndpointAddress { raw }, stalled);
            let n = (raw % 128) as usize;
            let (arm, reg, waker) = if raw >= 128 {
                (1u32, Reg::EpInBufferControl(n), WakerId::In(n))
            } else {
                (2u32, Reg::EpOutBufferControl(n), WakerId::Out(n))
            };
            let k = if_on(n == 0, 1);
            &&& ops.len() == k + 2
            &&& n == 0 ==> ops[0] == (Op::Modify {
                reg: Reg::EpStallArm,
                mask: arm,
                value: if_on(stalled, arm as int) as u32,
            })
            &&& ops[k] == (Op::Modify {
                reg,
                mask: 0x800,
                value: if_on(stalled, 0x800) as u32,
            })
            &&& ops[k + 1] == Op::Wake(waker)
        }),
{
    law_address_byte(0, Direction::In, raw);
}

/// A look at a stall asks for the buffer control word of the endpoint and answers with its bit 11.
pub proof fn law_stall_look(raw: u8, word: u32)
    ensures
        ({
            let addr = EndpointAddress { raw };
            let n = (raw % 128) as usize;
            let reg = if raw >= 128 {
                Reg::EpInBufferControl(n)
            } else {
                Reg::EpOutBufferControl(n)
            };
            &&& asks(is_stalled_next(addr, StallState::Begin, word), reg, StallState::Sample)
            &&& ends(
                is_stalled_next(addr, StallState::Sample, word),
                bit(word, 11),
                StallState::Begin,
            )
        }),
{
    law_address_byte(0, Direction::In, raw);
    law_word_fields(word, BufIdx::Buf0);
}

/// Enabling or disabling an endpoint: nothing is done for endpoint 0. For any other one the top bit
/// of its control word gets the new value; the first buffer of an IN endpoint is marked DATA1 and
/// nothing else, so that the next packet is DATA0; the buffers of an OUT endpoint go to the
/// controller for packets of the longest kind, DATA0 in the first and, where there is a second,
/// DATA1 in that. The task of the endpoint is woken last.
pub proof fn law_enable_access(b: BusState, raw: u8, enabled: bool)
    ensures
        ({
            let ops = enable_ops(b, EndpointAddress { raw }, enabled);
            let n = (raw % 128) as usize;
            let value = if_on(enabled, 0x8000_0000) as u32;
            let mask = 0x8000_0000u32;
            if n == 0 {
                ops.len() == 0
            } else if raw >= 128 {
                &&& ops.len() == 3
                &&& ops[0] == (Op::Modify { reg: Reg::EpInControl((n - 1) as usize), mask, value })
                &&& ops[1] == (Op::Write { reg: Reg::EpInBufferControl(n), value: 0x2000 })
                &&& ops[2] == Op::Wake(WakerId::In(n))
            } else {
                let data = b.ep_out[n as int];
                let mps = data.max_packet_size as int;
                let second = if_on(data.double_buffered, 0x1_0000);
                &&& ops.len() == 5
                &&& ops[0] == (Op::Modify { reg: Reg::EpOutControl((n - 1) as usize), mask, value })
                &&& stores_twice(
                    ops.subrange(1, 4),
                    Reg::EpOutBufferControl(n),
                    mps % 0x400 + second * (mps % 0x400 + 0x2000),
                    mps % 0x400 + 0x400 + second * (mps % 0x400 + 0x2400),
                )
                &&& ops[4] == Op::Wake(WakerId::Out(n))
            }
        }),
{
    law_address_byte(0, Direction::In, raw);
    let n = (raw % 128) as usize;
    let data = b.ep_out[n as int];
    let b0 = DoubleBufConfig {
        pid: false,
        length: data.max_packet_size,
        available: false,
        full: false,
    };
    let b1 = DoubleBufConfig { pid: true, ..b0 };
    law_word_value(b0, b1);
    law_word_value(b0.with_available(true), b1.with_available(true));
    law_word_value(b0, blank());
    law_word_value(b0.with_available(true), blank());
    law_word_value(DoubleBufConfig { pid: true, ..blank() }, blank());
}

/// The handler starts with a look at the pending interrupts. For each of bus reset, resume, suspend
/// and SETUP packet that is pending, in this order, it switches the interrupt off and then wakes
/// the task, that of the bus or, for the SETUP packet, that of endpoint 0 OUT; for one that is not
/// pending it does nothing. It goes on to the buffers exactly where one is reported.
pub proof fn law_handler_step(ints: u32)
    ensures
        asks(irq_next(IrqState::Begin, ints), Reg::Ints, IrqState::Ints),
        ({
            let s = irq_next(IrqState::Ints, ints);
            let resume = if_on(bit(ints, 12), 2);
            let suspend = resume + if_on(bit(ints, 15), 2);
            let setup = suspend + if_on(bit(ints, 14), 2);
            &&& s.ops.len() == setup + if_on(bit(ints, 16), 2)
            &&& bit(ints, 12) ==> s.ops[0] == (Op::ClearBits { reg: Reg::Inte, value: 0x1000 })
                && s.ops[1] == Op::Wake(WakerId::Bus)
            &&& bit(ints, 15) ==> s.ops[resume] == (Op::ClearBits {
                reg: Reg::Inte,
                value: 0x8000,
            }) && s.ops[resume + 1] == Op::Wake(WakerId::Bus)
            &&& bit(ints, 14) ==> s.ops[suspend] == (Op::ClearBits {
                reg: Reg::Inte,
                value: 0x4000,
            }) && s.ops[suspend + 1] == Op::Wake(WakerId::Bus)
            &&& bit(ints, 16) ==> s.ops[setup] == (Op::ClearBits {
                reg: Reg::Inte,
                value: 0x1_0000,
            }) && s.ops[setup + 1] == Op::Wake(WakerId::Out(0))
            &&& if bit(ints, 4) {
                &&& s.request == Request::<()>::Read(Reg::BuffStatus)
                &&& s.state == IrqState::Buffers
            } else {
                &&& s.request == Request::Ready(())
                &&& s.state == IrqState::Begin
            }
        }),
{
    law_flags(ints);
}

/// The place of a wake-up in the order of the endpoints, IN before OUT.
pub open spec fn rank(op: Op) -> int {
    match op {
        Op::Wake(WakerId::In(n)) => 2 * n,
        Op::Wake(WakerId::Out(n)) => 2 * n + 1,
        _ => -1,
    }
}

/// The operation wakes the task of an endpoint whose bit is set.
pub open spec fn wakes_reported(op: Op, status: u32) -> bool {
    match op {
        Op::Wake(WakerId::In(n)) => n < 16 && bit(status, (2 * n) as u32),
        Op::Wake(WakerId::Out(n)) => n < 16 && bit(status, (2 * n + 1) as u32),
        _ => false,
    }
}

proof fn lemma_wakes(status: u32, n: int)
    requires
        0 <= n <= 16,
    ensures
        ({
            let w = buffer_wakes(status, n);
            &&& forall|j: int|
                0 <= j < w.len() ==> wakes_reported(#[trigger] w[j], status) && rank(w[j]) < 2 * n
            &&& forall|j: int, k: int|
                0 <= j < k < w.len() ==> rank(#[trigger] w[j]) < rank(#[trigger] w[k])
        }),
    decreases n,
{
    if n > 0 {
        lemma_wakes(status, n - 1);
        law_endpoint_bits(status, (n - 1) as u32);
        let a = buffer_wakes(status, n - 1);
        let e = endpoint_wakes(status, n - 1);
        let w = buffer_wakes(status, n);
        assert(w == a + e);
        assert forall|j: int| 0 <= j < w.len() implies wakes_reported(#[trigger] w[j], status)
            && rank(w[j]) < 2 * n by {
            if j < a.len() {
                assert(w[j] == a[j]);
            } else {
                assert(w[j] == e[j - a.len()]);
            }
        }
        assert forall|j: int, k: int| 0 <= j < k < w.len() implies rank(#[trigger] w[j]) < rank(
            #[trigger] w[k],
        ) by {
            if k < a.len() {
                assert(w[j] == a[j] && w[k] == a[k]);
            } else if j < a.len() {
                assert(w[j] == a[j]);
                assert(w[k] == e[k - a.len()]);
            } else {
                assert(w[j] == e[j - a.len()]);
                assert(w[k] == e[k - a.len()]);
            }
        }
    }
}

/// The handler acknowledges the word of buffers as it was read, then wakes the task of each
/// endpoint whose bit is set: every one of them, no other one, each once, and in the order of the
/// bits.
pub proof fn law_handler_buffers(status: u32, n: usize)
    requires
        n < 16,
    ensures
        ({
            let s = irq_next(IrqState::Buffers, status);
            &&& s.request == Request::Ready(())
            &&& s.state == IrqState::Begin
            &&& s.ops.len() >= 1
            &&& s.ops[0] == (Op::Write { reg: Reg::BuffStatus, value: status })
            &&& forall|j: int| 1 <= j < s.ops.len() ==> wakes_reported(#[trigger] s.ops[j], status)
            &&& forall|j: int, k: int|
                1 <= j < k < s.ops.len() ==> rank(#[trigger] s.ops[j]) < rank(#[trigger] s.ops[k])
            &&& s.ops.contains(Op::Wake(WakerId::In(n))) <==> bit(status, (2 * n) as u32)
            &&& s.ops.contains(Op::Wake(WakerId::Out(n))) <==> bit(status, (2 * n + 1) as u32)
        }),
{
    crate::laws::registers::law_handler_wakes_endpoints(status, n);
    law_endpoint_bits(status, n as u32);
    lemma_wakes(status, 16);
    let w = buffer_wakes(status, 16);
    let ops = irq_next(IrqState::Buffers, status).ops;
    assert forall|j: int| 1 <= j < ops.len() implies ops[j] == #[trigger] w[j - 1] by {}
    assert forall|j: int| 1 <= j < ops.len() implies wakes_reported(#[trigger] ops[j], status) by {
        assert(ops[j] == w[j - 1]);
    }
    assert forall|j: int, k: int| 1 <= j < k < ops.len() implies rank(#[trigger] ops[j]) < rank(
        #[trigger] ops[k],
    ) by {
        assert(ops[j] == w[j - 1] && ops[k] == w[k - 1]);
    }
}

/// Bring-up: the interrupt is dropped and switched on, the 39 words of the controller and the 64
/// words of the dual-port memory are cleared in their order, then the controller is connected,
/// VBUS is reported and the controller is switched on, and the bus task is woken.
pub proof fn law_bring_up_order(i: usize)
    ensures
        power_up().len() == 109,
        power_up()[0] is UnpendInterrupt,
        power_up()[1] is EnableInterrupt,
        i < 39 ==> power_up()[2 + i] == Op::ClearRegWord(i),
        i < 64 ==> power_up()[41 + i] == Op::ClearDpramWord(i),
        power_up()[105] == (Op::Write { reg: Reg::UsbMuxing, value: 0x9 }),
        power_up()[106] == (Op::Write { reg: Reg::UsbPwr, value: 0xc }),
        power_up()[107] == (Op::Write { reg: Reg::MainCtrl, value: 0x1 }),
        power_up()[108] == Op::Wake(WakerId::Bus),
{
    assert(1u32 | 8u32 == 9 && 4u32 | 8u32 == 12) by (bit_vector);
}

/// Start: five interrupts are switched on, the endpoint mask is stored, and the pull-up together
/// with the interrupts of endpoint 0 comes last.
pub proof fn law_start_order()
    ensures
        start_up().len() == 3,
        start_up()[0] == (Op::Write { reg: Reg::Inte, value: 0x1_d010 }),
        start_up()[1] == (Op::Write { reg: Reg::IntEpCtrl, value: 0xfffc }),
        start_up()[2] == (Op::Write { reg: Reg::SieCtrl, value: 0x2001_0000 }),
{
    law_small_fields(0, 0xfffe);
    assert(0x1000u32 | 0x10u32 | 0x8000u32 | 0x4000u32 | 0x1_0000u32 == 0x1_d010) by (bit_vector);
    assert(0x2000_0000u32 | 0x1_0000u32 == 0x2001_0000) by (bit_vector);
}

/// A new driver has sixteen unused endpoints in each direction, none of them with a packet size or
/// a second buffer, and all of the memory from 0x180 on.
pub proof fn law_new_driver(i: int)
    requires
        0 <= i < 16,
    ensures
        ({
            let unused = EndpointData {
                ep_type: EndpointType::Bulk,
                max_packet_size: 0,
                used: false,
                double_buffered: false,
            };
            let d = initial_state();
            &&& d.ep_in.len() == 16 && d.ep_out.len() == 16
            &&& d.ep_in[i] == unused && d.ep_out[i] == unused
            &&& d.ep_mem_free == 0x180
        }),
{
}

} // verus!
