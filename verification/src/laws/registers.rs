//! What the accesses of the driver leave in the registers of the controller, and who is woken.
use crate::buffer::{
    available_at, config_at, lemma_control_word_fields, length_at, pid_at, BufIdx,
    DoubleBufConfig,
};
use crate::bus::{
    buffer_control_reg, bus_event, disable_all, enable_ops, endpoint_waker, event_response,
    fresh_out_words, is_stalled_next, poll_next, reset_ops, stall_ops, BusState, PollState,
    StallState,
};
use crate::driver::{ep_control_reg, ep_control_word, power_up, start_up, type_bits, EP_COUNT};
use crate::endpoint::{wait_enabled_next, EnableState, EndpointState};
use crate::interrupt::{buffer_wakes, endpoint_wakes, event_ops, irq_next, mask_and_wake, IrqState};
use crate::ops::{run, Op, Request, WakerId, DPRAM_CONTROL_WORDS, REG_WORDS};
use crate::regs::{
    address_word, any_set, ep_in_bit, ep_out_bit, merged, reg_at, Place, Reg,
    BUFFER_CONTROL_STALL, EP_CONTROL_DOUBLE_BUFFERED, EP_CONTROL_ENABLE,
    EP_CONTROL_INTERRUPT_PER_BUFF, INT_BUFF_STATUS, INT_BUS_RESET, INT_DEV_RESUME_FROM_HOST,
    INT_DEV_SUSPEND, INT_SETUP_REQ, MAIN_CONTROLLER_EN, MUXING_SOFTCON, MUXING_TO_PHY,
    PWR_VBUS_DETECT, PWR_VBUS_DETECT_OVERRIDE_EN,
};
use crate::types::{Direction, EndpointAddress, EndpointType, Event};
use vstd::prelude::*;

verus! {

/// The operation stores something in the register.
pub open spec fn touches(op: Op, reg: Reg) -> bool {
    match op {
        Op::ClearRegWord(n) => reg_at(Place::Controller(n)) == Some(reg),
        Op::ClearDpramWord(n) => reg_at(Place::Dpram(n)) == Some(reg),
        Op::Write { reg: r, .. } => r == reg,
        Op::SetBits { reg: r, .. } => r == reg,
        Op::ClearBits { reg: r, .. } => r == reg,
        Op::Modify { reg: r, .. } => r == reg,
        _ => false,
    }
}

/// One operation more.
pub proof fn lemma_run_push(ops: Seq<Op>, op: Op, regs: Map<Reg, u32>)
    ensures
        run(ops.push(op), regs) == op.effect(run(ops, regs)),
{
    assert(ops.push(op).drop_last() =~= ops);
}

/// Operations run one sequence after the other.
pub proof fn lemma_run_add(a: Seq<Op>, b: Seq<Op>, regs: Map<Reg, u32>)
    ensures
        run(a + b, regs) == run(b, run(a, regs)),
    decreases b.len(),
{
    if b.len() == 0 {
        assert(a + b =~= a);
    } else {
        lemma_run_add(a, b.drop_last(), regs);
        assert((a + b).drop_last() =~= a + b.drop_last());
    }
}

/// A register that no operation stores into keeps its word.
pub proof fn law_untouched(ops: Seq<Op>, regs: Map<Reg, u32>, reg: Reg)
    requires
        forall|i: int| 0 <= i < ops.len() ==> !touches(#[trigger] ops[i], reg),
    ensures
        run(ops, regs)[reg] == regs[reg],
    decreases ops.len(),
{
    if ops.len() > 0 {
        law_untouched(ops.drop_last(), regs, reg);
        assert(!touches(ops[ops.len() - 1], reg));
    }
}

/// A register that one operation alone stores into holds what that operation leaves.
proof fn lemma_touched_once(ops: Seq<Op>, regs: Map<Reg, u32>, reg: Reg, k: int)
    requires
        0 <= k < ops.len(),
        forall|i: int| 0 <= i < ops.len() && i != k ==> !touches(#[trigger] ops[i], reg),
        ops[k] is Modify || ops[k] is Write || ops[k] is ClearRegWord || ops[k] is ClearDpramWord,
        touches(ops[k], reg),
    ensures
        run(ops, regs)[reg] == (match ops[k] {
            Op::Modify { mask, value, .. } => merged(regs[reg], mask, value),
            Op::Write { value, .. } => value,
            _ => 0,
        }),
{
    let head = ops.take(k);
    let tail = ops.skip(k + 1);
    assert(ops =~= head.push(ops[k]) + tail);
    lemma_run_add(head.push(ops[k]), tail, regs);
    lemma_run_push(head, ops[k], regs);
    assert forall|i: int| 0 <= i < head.len() implies !touches(#[trigger] head[i], reg) by {
        assert(head[i] == ops[i]);
    }
    assert forall|i: int| 0 <= i < tail.len() implies !touches(#[trigger] tail[i], reg) by {
        assert(tail[i] == ops[i + k + 1]);
    }
    law_untouched(head, regs, reg);
    law_untouched(tail, run(head.push(ops[k]), regs), reg);
}

/// Every register that the driver uses has a word of its own, within the words that are cleared
/// when the controller is brought up.
pub proof fn law_register_places(reg: Reg)
    requires
        reg.valid(),
    ensures
        reg_at(reg.location()) == Some(reg),
        match reg.location() {
            Place::Controller(n) => n < REG_WORDS,
            Place::Dpram(n) => n < DPRAM_CONTROL_WORDS,
        },
{
}

/// Whatever was in the registers before, after the controller was brought up all of them are zero
/// but those that connect the PHY, report VBUS and switch the controller on.
pub proof fn law_power_up(reg: Reg, regs: Map<Reg, u32>)
    requires
        reg.valid(),
    ensures
        run(power_up(), regs)[reg] == (match reg {
            Reg::UsbMuxing => MUXING_TO_PHY | MUXING_SOFTCON,
            Reg::UsbPwr => PWR_VBUS_DETECT | PWR_VBUS_DETECT_OVERRIDE_EN,
            Reg::MainCtrl => MAIN_CONTROLLER_EN,
            _ => 0,
        }),
{
    law_register_places(reg);
    let n = 2 + REG_WORDS + DPRAM_CONTROL_WORDS;
    let clear = power_up().take(n);
    let set = power_up().skip(n);
    assert(power_up() =~= clear + set);
    lemma_run_add(clear, set, regs);
    let k = match reg.location() {
        Place::Controller(i) => 2 + i,
        Place::Dpram(i) => 2 + REG_WORDS + i,
    };
    assert forall|i: int| 0 <= i < clear.len() && i != k implies !touches(
        #[trigger] clear[i],
        reg,
    ) by {
        lemma_place_of(clear[i], reg);
    }
    assert(clear[k] == (match reg.location() {
        Place::Controller(i) => Op::ClearRegWord(i),
        Place::Dpram(i) => Op::ClearDpramWord(i),
    }));
    lemma_touched_once(clear, regs, reg, k);
    let zero = run(clear, regs);
    match reg {
        Reg::UsbMuxing => lemma_touched_once(set, zero, reg, 0),
        Reg::UsbPwr => lemma_touched_once(set, zero, reg, 1),
        Reg::MainCtrl => lemma_touched_once(set, zero, reg, 2),
        _ => law_untouched(set, zero, reg),
    }
}

/// A word that is cleared is the word of the register that it clears.
proof fn lemma_place_of(op: Op, reg: Reg)
    requires
        reg.valid(),
    ensures
        op matches Op::ClearRegWord(n) ==> touches(op, reg) ==> reg.location()
            == Place::Controller(n),
        op matches Op::ClearDpramWord(n) ==> touches(op, reg) ==> reg.location()
            == Place::Dpram(n),
{
}

proof fn lemma_merge_stall(word: u32)
    by (bit_vector)
    ensures
        (merged(word, 0x0000_0800u32, 0x0000_0800u32) >> 11u32) & 1 == 1,
        (merged(word, 0x0000_0800u32, 0) >> 11u32) & 1 != 1,
        merged(word, 0x0000_0800u32, 0x0000_0800u32) & !0x0000_0800u32 == word & !0x0000_0800u32,
        merged(word, 0x0000_0800u32, 0) & !0x0000_0800u32 == word & !0x0000_0800u32,
{
}

/// After the stall of an endpoint was set or cleared, a look at it tells what was asked for; all
/// other bits of the buffer control word are as before, and the task of the endpoint is woken.
pub proof fn law_stall_reads_back(addr: EndpointAddress, stalled: bool, regs: Map<Reg, u32>)
    requires
        addr.index_part() < EP_COUNT,
    ensures
        ({
            let reg = buffer_control_reg(addr.direction_part(), addr.index_part());
            let after = run(stall_ops(addr, stalled), regs);
            &&& is_stalled_next(addr, StallState::Begin, 0).request == Request::<bool>::Read(reg)
            &&& is_stalled_next(addr, StallState::Sample, after[reg]).request == Request::Ready(
                stalled,
            )
            &&& after[reg] & !BUFFER_CONTROL_STALL == regs[reg] & !BUFFER_CONTROL_STALL
            &&& stall_ops(addr, stalled).last() == Op::Wake(
                endpoint_waker(addr.direction_part(), addr.index_part()),
            )
        }),
{
    let ops = stall_ops(addr, stalled);
    let reg = buffer_control_reg(addr.direction_part(), addr.index_part());
    let k: int = if addr.index_part() == 0 {
        1
    } else {
        0
    };
    lemma_touched_once(ops, regs, reg, k);
    lemma_merge_stall(regs[reg]);
}

proof fn lemma_merge_enable(word: u32)
    by (bit_vector)
    ensures
        merged(word, 0x8000_0000u32, 0x8000_0000u32) & 0x8000_0000u32 != 0,
        merged(word, 0x8000_0000u32, 0) & 0x8000_0000u32 == 0,
        merged(word, 0x8000_0000u32, 0x8000_0000u32) & !0x8000_0000u32 == word & !0x8000_0000u32,
        merged(word, 0x8000_0000u32, 0) & !0x8000_0000u32 == word & !0x8000_0000u32,
{
}

/// After an endpoint was enabled, a wait for that is over at once; after it was disabled, the wait
/// goes on. All other bits of its control word are as before, and its task is woken.
pub proof fn law_enable_ends_wait(
    b: BusState,
    ep: EndpointState,
    dir: Direction,
    enabled: bool,
    regs: Map<Reg, u32>,
)
    requires
        ep.wf(dir),
    ensures
        ({
            let reg = ep_control_reg(dir, ep.index());
            let after = run(enable_ops(b, ep.info.addr, enabled), regs);
            &&& wait_enabled_next(ep, dir, EnableState::Wait, 0).request == Request::<()>::Read(reg)
            &&& wait_enabled_next(ep, dir, EnableState::Sample, after[reg]).request == (if enabled {
                Request::Ready(())
            } else {
                Request::Pending
            })
            &&& after[reg] & !EP_CONTROL_ENABLE == regs[reg] & !EP_CONTROL_ENABLE
            &&& enable_ops(b, ep.info.addr, enabled).last() == Op::Wake(
                endpoint_waker(dir, ep.index()),
            )
        }),
{
    let ops = enable_ops(b, ep.info.addr, enabled);
    let reg = ep_control_reg(dir, ep.index());
    lemma_touched_once(ops, regs, reg, 0);
    lemma_merge_enable(regs[reg]);
}

/// An endpoint that was enabled starts with its PIDs in place: an OUT endpoint has all of its
/// buffers with the controller, the first one for DATA0 and the second one for DATA1; an IN
/// endpoint has none there, and a flip gives DATA0 for the first one and DATA1 for the second.
pub proof fn law_enable_starts_fresh(
    b: BusState,
    addr: EndpointAddress,
    enabled: bool,
    regs: Map<Reg, u32>,
)
    requires
        b.wf(),
        0 < addr.index_part() < EP_COUNT,
    ensures
        ({
            let n = addr.index_part();
            let word = run(enable_ops(b, addr, enabled), regs)[buffer_control_reg(
                addr.direction_part(),
                n,
            )];
            match addr.direction_part() {
                Direction::In => {
                    &&& !available_at(word, BufIdx::Buf0)
                    &&& !available_at(word, BufIdx::Buf1)
                    &&& !pid_at(word, BufIdx::Buf0) == false
                    &&& !pid_at(word, BufIdx::Buf1) == true
                },
                Direction::Out => {
                    let data = b.ep_out[n as int];
                    &&& config_at(word, BufIdx::Buf0) == (DoubleBufConfig {
                        pid: false,
                        length: data.max_packet_size & 0x3ff,
                        available: true,
                        full: false,
                    })
                    &&& data.double_buffered ==> config_at(word, BufIdx::Buf1) == (
                    DoubleBufConfig {
                        pid: true,
                        length: data.max_packet_size & 0x3ff,
                        available: true,
                        full: false,
                    })
                    &&& !data.double_buffered ==> !available_at(word, BufIdx::Buf1)
                    &&& data.used ==> length_at(word, BufIdx::Buf0) == data.max_packet_size
                },
            }
        }),
{
    let n = addr.index_part();
    let ops = enable_ops(b, addr, enabled);
    let reg = buffer_control_reg(addr.direction_part(), n);
    match addr.direction_part() {
        Direction::In => {
            lemma_touched_once(ops, regs, reg, 1);
            lemma_control_word_fields(
                crate::bus::room_for(true, 0),
                crate::bus::room_for(false, 0),
            );
        },
        Direction::Out => {
            let data = b.ep_out[n as int];
            let words = fresh_out_words(data);
            let head = ops.take(3);
            let tail = ops.skip(3);
            assert(ops =~= head + tail);
            lemma_run_add(head, tail, regs);
            assert(tail[0] == Op::Write { reg, value: words.1 });
            lemma_touched_once(tail, run(head, regs), reg, 0);
            let b0 = crate::bus::room_for(false, data.max_packet_size).with_available(true);
            let b1 = crate::bus::room_for(true, data.max_packet_size).with_available(true);
            lemma_control_word_fields(b0, b1);
            lemma_control_word_fields(b0, crate::buffer::blank());
            if data.used {
                crate::laws::buffers::lemma_short_length(data.max_packet_size);
            }
        },
    }
}

/// A bus reset leaves every endpoint but endpoint 0 disabled, with the rest of its control word as
/// it was, gives the device address 0, and wakes the task of every endpoint.
pub proof fn law_reset(regs: Map<Reg, u32>, dir: Direction, n: usize)
    requires
        n < EP_COUNT,
    ensures
        reset_ops().contains(Op::Wake(endpoint_waker(dir, n))),
        run(reset_ops(), regs)[Reg::AddrEndp] == 0,
        0 < n ==> !any_set(run(reset_ops(), regs)[ep_control_reg(dir, n)], EP_CONTROL_ENABLE),
        0 < n ==> run(reset_ops(), regs)[ep_control_reg(dir, n)] & !EP_CONTROL_ENABLE
            == regs[ep_control_reg(dir, n)] & !EP_CONTROL_ENABLE,
{
    let ops = reset_ops();
    assert(ops.len() == 65);
    let w: int = match dir {
        Direction::In => 33 + n,
        Direction::Out => 49 + n,
    };
    assert(ops[w] == Op::Wake(endpoint_waker(dir, n)));
    lemma_touched_once(ops, regs, Reg::AddrEndp, 2);
    assert(address_word(0) == 0) by {
        assert((0u8 & 0x7f) as u32 == 0) by (bit_vector);
    }
    if 0 < n {
        let reg = ep_control_reg(dir, n);
        let k: int = match dir {
            Direction::In => 3 + 2 * (n - 1),
            Direction::Out => 3 + 2 * (n - 1) + 1,
        };
        assert(ops[k] == disable_all()[k - 3]);
        lemma_touched_once(ops, regs, reg, k);
        lemma_merge_enable(regs[reg]);
    }
}

/// A new bus reports power, once: the first poll is answered at once, and no later one is answered
/// with power.
pub proof fn law_power_once(b: BusState, st: PollState, input: u32)
    ensures
        !b.inited ==> poll_next(b, PollState::Begin, input).request == Request::Ready(
            Event::PowerDetected,
        ),
        b.inited ==> poll_next(b, st, input).request != Request::Ready(Event::PowerDetected),
{
}

/// A poll of a bus whose power was reported looks at both status words and answers with the event
/// that they tell of, or sleeps where there is none; it looks only after the task can be woken.
pub proof fn law_poll(b: BusState, siestatus: u32, intrstatus: u32, x: u32)
    requires
        b.inited,
    ensures
        ({
            let s0 = poll_next(b, PollState::Begin, x);
            let s1 = poll_next(b, s0.state, siestatus);
            let s2 = poll_next(b, s1.state, intrstatus);
            &&& s0.ops == seq![Op::Register(WakerId::Bus)]
            &&& s0.request == Request::<Event>::Read(Reg::SieStatus)
            &&& s1.ops == Seq::<Op>::empty()
            &&& s1.request == Request::<Event>::Read(Reg::Intr)
            &&& s2.ops == event_response(bus_event(siestatus, intrstatus))
            &&& s2.request == (match bus_event(siestatus, intrstatus) {
                Some(e) => Request::Ready(e),
                None => Request::Pending,
            })
            &&& s2.state == PollState::Begin
        }),
{
}

/// Interrupts of the bus: all of them.
pub open spec fn bus_interrupts() -> u32 {
    INT_BUS_RESET | INT_DEV_RESUME_FROM_HOST | INT_DEV_SUSPEND
}

proof fn lemma_mask_step(ints: u32, flag: u32, waker: WakerId, regs: Map<Reg, u32>)
    ensures
        run(mask_and_wake(ints, flag, waker), regs)[Reg::Inte] == (if any_set(ints, flag) {
            regs[Reg::Inte] & !flag
        } else {
            regs[Reg::Inte]
        }),
{
    let ops = mask_and_wake(ints, flag, waker);
    if any_set(ints, flag) {
        let one = Seq::<Op>::empty().push(Op::ClearBits { reg: Reg::Inte, value: flag });
        assert(ops =~= one.push(Op::Wake(waker)));
        lemma_run_push(one, Op::Wake(waker), regs);
        lemma_run_push(Seq::empty(), Op::ClearBits { reg: Reg::Inte, value: flag }, regs);
        assert(run(Seq::<Op>::empty(), regs) == regs);
    }
}

/// The interrupts of the bus and of the SETUP packet that are pending are off after the handler
/// has run, so they do not fire again, and no other interrupt is switched.
pub proof fn law_handler_masks(ints: u32, regs: Map<Reg, u32>)
    ensures
        run(event_ops(ints), regs)[Reg::Inte] == regs[Reg::Inte] & !(ints & (INT_BUS_RESET
            | INT_DEV_RESUME_FROM_HOST | INT_DEV_SUSPEND | INT_SETUP_REQ)),
{
    let a = mask_and_wake(ints, INT_BUS_RESET, WakerId::Bus);
    let b = mask_and_wake(ints, INT_DEV_RESUME_FROM_HOST, WakerId::Bus);
    let c = mask_and_wake(ints, INT_DEV_SUSPEND, WakerId::Bus);
    let d = mask_and_wake(ints, INT_SETUP_REQ, WakerId::Out(0));
    lemma_run_add(a + b + c, d, regs);
    lemma_run_add(a + b, c, regs);
    lemma_run_add(a, b, regs);
    lemma_mask_step(ints, INT_BUS_RESET, WakerId::Bus, regs);
    lemma_mask_step(ints, INT_DEV_RESUME_FROM_HOST, WakerId::Bus, run(a, regs));
    lemma_mask_step(ints, INT_DEV_SUSPEND, WakerId::Bus, run(a + b, regs));
    lemma_mask_step(ints, INT_SETUP_REQ, WakerId::Out(0), run(a + b + c, regs));
    let e = regs[Reg::Inte];
    lemma_mask_bits(e, ints);
}

spec fn drop_if(e: u32, ints: u32, flag: u32) -> u32 {
    if ints & flag != 0 {
        e & !flag
    } else {
        e
    }
}

proof fn lemma_mask_bits(e: u32, ints: u32)
    by (bit_vector)
    ensures
        drop_if(
            drop_if(
                drop_if(drop_if(e, ints, 0x0000_1000u32), ints, 0x0000_8000u32),
                ints,
                0x0000_4000u32,
            ),
            ints,
            0x0001_0000u32,
        ) == e & !(ints & (0x0000_1000u32 | 0x0000_8000u32 | 0x0000_4000u32 | 0x0001_0000u32)),
{
}

/// The handler wakes the bus task exactly where an interrupt of the bus is pending, and the task
/// of the control pipe exactly where a SETUP packet is.
pub proof fn law_handler_wakes(ints: u32)
    ensures
        event_ops(ints).contains(Op::Wake(WakerId::Bus)) <==> any_set(ints, INT_BUS_RESET)
            || any_set(ints, INT_DEV_RESUME_FROM_HOST) || any_set(ints, INT_DEV_SUSPEND),
        event_ops(ints).contains(Op::Wake(WakerId::Out(0))) <==> any_set(ints, INT_SETUP_REQ),
{
    let ops = event_ops(ints);
    let a = mask_and_wake(ints, INT_BUS_RESET, WakerId::Bus);
    let b = mask_and_wake(ints, INT_DEV_RESUME_FROM_HOST, WakerId::Bus);
    let c = mask_and_wake(ints, INT_DEV_SUSPEND, WakerId::Bus);
    if any_set(ints, INT_BUS_RESET) {
        assert(ops[1] == Op::Wake(WakerId::Bus));
    }
    if any_set(ints, INT_DEV_RESUME_FROM_HOST) {
        assert(ops[a.len() as int + 1] == Op::Wake(WakerId::Bus));
    }
    if any_set(ints, INT_DEV_SUSPEND) {
        assert(ops[a.len() as int + b.len() + 1] == Op::Wake(WakerId::Bus));
    }
    if any_set(ints, INT_SETUP_REQ) {
        assert(ops[a.len() as int + b.len() + c.len() + 1] == Op::Wake(WakerId::Out(0)));
    }
}

/// A poll of the bus that goes to sleep has switched all interrupts of the bus on again.
pub proof fn law_sleep_unmasks(siestatus: u32, intrstatus: u32, regs: Map<Reg, u32>)
    requires
        bus_event(siestatus, intrstatus) is None,
    ensures
        run(event_response(bus_event(siestatus, intrstatus)), regs)[Reg::Inte] == regs[Reg::Inte]
            | bus_interrupts(),
{
    let op = Op::SetBits { reg: Reg::Inte, value: bus_interrupts() };
    assert(event_response(None) =~= Seq::<Op>::empty().push(op));
    lemma_run_push(Seq::empty(), op, regs);
    assert(run(Seq::<Op>::empty(), regs) == regs);
}

proof fn lemma_wakes_contain(status: u32, n: int, op: Op)
    requires
        0 <= n <= EP_COUNT,
    ensures
        buffer_wakes(status, n).contains(op) <==> (exists|i: int|
            0 <= i < n && (#[trigger] endpoint_wakes(status, i)).contains(op)),
    decreases n,
{
    if n > 0 {
        lemma_wakes_contain(status, n - 1, op);
        let a = buffer_wakes(status, n - 1);
        let b = endpoint_wakes(status, n - 1);
        if (a + b).contains(op) {
            let k = choose|k: int| 0 <= k < (a + b).len() && (a + b)[k] == op;
            if k < a.len() {
                assert(a[k] == op);
                assert(a.contains(op));
            } else {
                assert(b[k - a.len()] == op);
                assert(endpoint_wakes(status, n - 1).contains(op));
            }
        }
        if a.contains(op) {
            let k = choose|k: int| 0 <= k < a.len() && a[k] == op;
            assert((a + b)[k] == op);
        }
        if b.contains(op) {
            let k = choose|k: int| 0 <= k < b.len() && b[k] == op;
            assert((a + b)[a.len() + k] == op);
        }
    }
}

/// The handler wakes the task of an endpoint exactly where the controller reports one of its
/// buffers, and it acknowledges just what was reported.
pub proof fn law_handler_wakes_endpoints(status: u32, n: usize)
    requires
        n < EP_COUNT,
    ensures
        irq_next(IrqState::Buffers, status).ops[0] == (Op::Write {
            reg: Reg::BuffStatus,
            value: status,
        }),
        irq_next(IrqState::Buffers, status).ops.contains(Op::Wake(WakerId::In(n))) <==> ep_in_bit(
            status,
            n as int,
        ),
        irq_next(IrqState::Buffers, status).ops.contains(Op::Wake(WakerId::Out(n)))
            <==> ep_out_bit(status, n as int),
{
    let wakes = buffer_wakes(status, EP_COUNT as int);
    let ops = irq_next(IrqState::Buffers, status).ops;
    let win = Op::Wake(WakerId::In(n));
    let wout = Op::Wake(WakerId::Out(n));
    lemma_wakes_contain(status, EP_COUNT as int, win);
    lemma_wakes_contain(status, EP_COUNT as int, wout);
    let here = endpoint_wakes(status, n as int);
    if ep_in_bit(status, n as int) {
        assert(here[0] == win);
        assert(here.contains(win));
    }
    if ep_out_bit(status, n as int) {
        assert(here[here.len() - 1] == wout);
        assert(here.contains(wout));
    }
    lemma_prefixed(Op::Write { reg: Reg::BuffStatus, value: status }, wakes, win);
    lemma_prefixed(Op::Write { reg: Reg::BuffStatus, value: status }, wakes, wout);
}

proof fn lemma_prefixed(head: Op, tail: Seq<Op>, op: Op)
    requires
        head != op,
    ensures
        (seq![head] + tail).contains(op) <==> tail.contains(op),
{
    let all = seq![head] + tail;
    if all.contains(op) {
        let k = choose|k: int| 0 <= k < all.len() && all[k] == op;
        assert(tail[k - 1] == op);
    }
    if tail.contains(op) {
        let k = choose|k: int| 0 <= k < tail.len() && tail[k] == op;
        assert(all[k + 1] == op);
    }
}

/// A device that starts has all of its interrupts on, those that the handler switches off
/// included.
pub proof fn law_start_unmasks(regs: Map<Reg, u32>)
    ensures
        run(start_up(), regs)[Reg::Inte] == bus_interrupts() | INT_SETUP_REQ | INT_BUFF_STATUS,
{
    lemma_touched_once(start_up(), regs, Reg::Inte, 0);
    assert(0x0000_1000u32 | 0x0000_0010u32 | 0x0000_8000u32 | 0x0000_4000u32 | 0x0001_0000u32 == (
    0x0000_1000u32 | 0x0000_8000u32 | 0x0000_4000u32) | 0x0001_0000u32 | 0x0000_0010u32)
        by (bit_vector);
}

/// An endpoint that was given out is not enabled, and its control word has the address of its
/// buffer, its type, and two buffers exactly where it is a bulk endpoint.
pub proof fn law_control_word(addr: u16, ep_type: EndpointType)
    ensures
        ({
            let word = ep_control_word(addr, ep_type, ep_type is Bulk);
            &&& !any_set(word, EP_CONTROL_ENABLE)
            &&& word & 0xffff == addr
            &&& word & 0x0c00_0000 == type_bits(ep_type)
            &&& any_set(word, EP_CONTROL_INTERRUPT_PER_BUFF)
            &&& any_set(word, EP_CONTROL_DOUBLE_BUFFERED) <==> ep_type is Bulk
        }),
{
    let t = type_bits(ep_type);
    assert(0u32 & !0x0c00_0000u32 == 0 && 0x0400_0000u32 & !0x0c00_0000u32 == 0 && 0x0800_0000u32
        & !0x0c00_0000u32 == 0 && 0x0c00_0000u32 & !0x0c00_0000u32 == 0 && 0x4000_0000u32
        & !0x4000_0000u32 == 0 && 0u32 & !0x4000_0000u32 == 0) by (bit_vector);
    lemma_control_bits(addr, t, 0x4000_0000u32);
    lemma_control_bits(addr, t, 0);
}

proof fn lemma_control_bits(addr: u16, t: u32, d: u32)
    by (bit_vector)
    requires
        t & !0x0c00_0000u32 == 0,
        d & !0x4000_0000u32 == 0,
    ensures
        ((addr as u32) | 0x2000_0000u32 | t | d) & 0x8000_0000u32 == 0,
        ((addr as u32) | 0x2000_0000u32 | t | d) & 0xffff == addr as u32,
        ((addr as u32) | 0x2000_0000u32 | t | d) & 0x0c00_0000u32 == t,
        ((addr as u32) | 0x2000_0000u32 | t | d) & 0x2000_0000u32 != 0,
        ((addr as u32) | 0x2000_0000u32 | t | d) & 0x4000_0000u32 == d,
{
}

} // verus!
