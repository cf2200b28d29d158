use rp_usb::bus::{Bus, PollState, StallState};
use rp_usb::driver::Driver;
use rp_usb::instance::Instance;
use rp_usb::interrupt::{InterruptHandler, IrqState};
use rp_usb::ops::{Op, OpList, Request, WakerId};
use rp_usb::regs::{merge, Reg};
use rp_usb::types::{EndpointAddress, EndpointType, Event, Unsupported};

struct Device;

impl Instance for Device {
    type Interrupt = ();
}

fn all_ops(ops: &OpList) -> Vec<Op> {
    (0..ops.len()).map(|i| ops.get(i)).collect()
}

fn new_bus() -> Bus<'static, Device> {
    Driver::new(&mut OpList::new()).start(&mut OpList::new(), 64).0
}

/// A bus with a bulk and an interrupt endpoint in each direction, at 1 and 2.
fn populated_bus() -> Bus<'static, Device> {
    let mut ops = OpList::new();
    let mut d: Driver<'static, Device> = Driver::new(&mut ops);
    for (t, mps) in [(EndpointType::Bulk, 64), (EndpointType::Interrupt, 8)] {
        assert!(d.alloc_endpoint_in(&mut ops, t, None, mps, 1).is_ok());
        assert!(d.alloc_endpoint_out(&mut ops, t, None, mps, 1).is_ok());
    }
    d.start(&mut OpList::new(), 64).0
}

fn step(
    bus: &mut Bus<'static, Device>,
    st: &mut PollState,
    word: u32,
) -> (Vec<Op>, Request<Event>) {
    let mut ops = OpList::new();
    let r = bus.poll(st, word, &mut ops);
    (all_ops(&ops), r)
}

/// One poll of a bus whose power was reported.
fn poll_with(siestatus: u32, intrstatus: u32) -> (Vec<Op>, Request<Event>) {
    let mut bus = new_bus();
    let mut st = PollState::Begin;
    step(&mut bus, &mut st, 0);
    let register = vec![Op::Register(WakerId::Bus)];
    assert_eq!(step(&mut bus, &mut st, 0xffff_ffff), (register, Request::Read(Reg::SieStatus)));
    assert_eq!(step(&mut bus, &mut st, siestatus), (vec![], Request::Read(Reg::Intr)));
    let r = step(&mut bus, &mut st, intrstatus);
    assert_eq!(st, PollState::Begin);
    r
}

/// What the operations leave in a register that held `word`.
fn left_in(ops: &[Op], reg: Reg, word: u32) -> u32 {
    let mut w = word;
    for op in ops {
        match *op {
            Op::Write { reg: r, value } if r == reg => w = value,
            Op::SetBits { reg: r, value } if r == reg => w |= value,
            Op::ClearBits { reg: r, value } if r == reg => w &= !value,
            Op::Modify { reg: r, mask, value } if r == reg => w = merge(w, mask, value),
            _ => {}
        }
    }
    w
}

fn irq(st: &mut IrqState, word: u32) -> (Vec<Op>, Request<()>) {
    let mut ops = OpList::new();
    let r = InterruptHandler::<Device>::on_interrupt(st, word, &mut ops);
    (all_ops(&ops), r)
}

#[test]
fn power_is_reported_once() {
    let mut bus = new_bus();
    let mut st = PollState::Begin;
    let register = vec![Op::Register(WakerId::Bus)];
    assert_eq!(
        step(&mut bus, &mut st, 0),
        (register.clone(), Request::Ready(Event::PowerDetected))
    );
    assert_eq!(st, PollState::Begin);
    assert_eq!(step(&mut bus, &mut st, 0), (register, Request::Read(Reg::SieStatus)));
}

#[test]
fn resume_comes_first() {
    let ack = vec![Op::Write { reg: Reg::SieStatus, value: 0x800 }];
    for (sie, intr) in [(0x800, 0), (0, 0x8000), (0x8_0810, 0x4000), (0x8_0010, 0xc000)] {
        assert_eq!(poll_with(sie, intr), (ack.clone(), Request::Ready(Event::Resume)));
    }
}

#[test]
fn reset_comes_before_suspend() {
    let (ops, r) = poll_with(0x8_0010, 0x4000);
    assert_eq!(r, Request::Ready(Event::Reset));
    assert_eq!(ops.len(), 65);
    assert_eq!(ops[0], Op::Write { reg: Reg::SieStatus, value: 0xa_0000 });
    assert_eq!(ops[1], Op::Write { reg: Reg::BuffStatus, value: 0xffff_ffff });
    assert_eq!(ops[2], Op::Write { reg: Reg::AddrEndp, value: 0 });
    for i in 0..15 {
        let (mask, value) = (0x8000_0000, 0);
        assert_eq!(ops[3 + 2 * i], Op::Modify { reg: Reg::EpInControl(i), mask, value });
        assert_eq!(ops[4 + 2 * i], Op::Modify { reg: Reg::EpOutControl(i), mask, value });
        assert_eq!(left_in(&ops, Reg::EpInControl(i), 0xe800_0180), 0x6800_0180);
        assert_eq!(left_in(&ops, Reg::EpOutControl(i), 0x2c00_0180), 0x2c00_0180);
    }
    for i in 0..16 {
        assert_eq!(ops[33 + i], Op::Wake(WakerId::In(i)));
        assert_eq!(ops[49 + i], Op::Wake(WakerId::Out(i)));
    }
}

#[test]
fn suspend_needs_both_words() {
    let ack = vec![Op::Write { reg: Reg::SieStatus, value: 0x10 }];
    assert_eq!(poll_with(0x10, 0x4000), (ack, Request::Ready(Event::Suspend)));
    let sleep = vec![Op::SetBits { reg: Reg::Inte, value: 0xd000 }];
    assert_eq!(poll_with(0x10, 0), (sleep.clone(), Request::Pending));
    assert_eq!(poll_with(0, 0x4000), (sleep.clone(), Request::Pending));
    assert_eq!(poll_with(0, 0), (sleep, Request::Pending));
}

#[test]
fn sleep_undoes_what_the_handler_masks() {
    let mut st = IrqState::Ints;
    let (masking, _) = irq(&mut st, 0xd000);
    let masked = left_in(&masking, Reg::Inte, 0x1_d010);
    assert_eq!(masked, 0x1_0010);
    let (unmasking, r) = poll_with(0, 0);
    assert_eq!(r, Request::Pending);
    assert_eq!(left_in(&unmasking, Reg::Inte, masked), 0x1_d010);
}

#[test]
fn handler_masks_and_wakes() {
    let mut st = IrqState::Begin;
    assert_eq!(irq(&mut st, 7), (vec![], Request::Read(Reg::Ints)));
    let (ops, r) = irq(&mut st, 0x1_d000);
    assert_eq!(r, Request::Ready(()));
    assert_eq!(st, IrqState::Begin);
    assert_eq!(
        ops,
        vec![
            Op::ClearBits { reg: Reg::Inte, value: 0x1000 },
            Op::Wake(WakerId::Bus),
            Op::ClearBits { reg: Reg::Inte, value: 0x8000 },
            Op::Wake(WakerId::Bus),
            Op::ClearBits { reg: Reg::Inte, value: 0x4000 },
            Op::Wake(WakerId::Bus),
            Op::ClearBits { reg: Reg::Inte, value: 0x1_0000 },
            Op::Wake(WakerId::Out(0)),
        ]
    );
    let mut st = IrqState::Ints;
    assert_eq!(irq(&mut st, 0), (vec![], Request::Ready(())));
    let mut st = IrqState::Ints;
    assert_eq!(
        irq(&mut st, 0x1_0000).0,
        vec![Op::ClearBits { reg: Reg::Inte, value: 0x1_0000 }, Op::Wake(WakerId::Out(0))]
    );
}

#[test]
fn handler_wakes_the_endpoints_that_are_done() {
    let mut st = IrqState::Ints;
    assert_eq!(irq(&mut st, 0x10), (vec![], Request::Read(Reg::BuffStatus)));
    assert_eq!(st, IrqState::Buffers);
    let (ops, r) = irq(&mut st, 0x8000_0013);
    assert_eq!(r, Request::Ready(()));
    assert_eq!(
        ops,
        vec![
            Op::Write { reg: Reg::BuffStatus, value: 0x8000_0013 },
            Op::Wake(WakerId::In(0)),
            Op::Wake(WakerId::Out(0)),
            Op::Wake(WakerId::In(2)),
            Op::Wake(WakerId::Out(15)),
        ]
    );
    let mut st = IrqState::Buffers;
    assert_eq!(irq(&mut st, 0xffff_ffff).0.len(), 33);
}

#[test]
fn stall_of_an_endpoint() {
    let mut bus = populated_bus();
    for raw in [0x01u8, 0x81, 0x0f, 0x8f] {
        let addr = EndpointAddress { raw };
        let n = addr.index();
        let (reg, waker) = if addr.is_in() {
            (Reg::EpInBufferControl(n), WakerId::In(n))
        } else {
            (Reg::EpOutBufferControl(n), WakerId::Out(n))
        };
        for stalled in [false, true] {
            let mut ops = OpList::new();
            bus.endpoint_set_stalled(&mut ops, addr, stalled);
            let ops = all_ops(&ops);
            let value = if stalled { 0x800 } else { 0 };
            assert_eq!(ops, vec![Op::Modify { reg, mask: 0x800, value }, Op::Wake(waker)]);

            let word = left_in(&ops, reg, 0x2c40_ac40);
            assert_eq!(word, 0x2c40_a440 | value);
            let mut st = StallState::Begin;
            assert_eq!(bus.endpoint_is_stalled(&mut st, 0, addr), Request::Read(reg));
            assert_eq!(bus.endpoint_is_stalled(&mut st, word, addr), Request::Ready(stalled));
            assert_eq!(st, StallState::Begin);
        }
    }
}

#[test]
fn stall_of_endpoint_zero_is_armed() {
    let mut bus = populated_bus();
    let mut ops = OpList::new();
    bus.endpoint_set_stalled(&mut ops, EndpointAddress { raw: 0x80 }, true);
    bus.endpoint_set_stalled(&mut ops, EndpointAddress { raw: 0x00 }, false);
    assert_eq!(
        all_ops(&ops),
        vec![
            Op::Modify { reg: Reg::EpStallArm, mask: 1, value: 1 },
            Op::Modify { reg: Reg::EpInBufferControl(0), mask: 0x800, value: 0x800 },
            Op::Wake(WakerId::In(0)),
            Op::Modify { reg: Reg::EpStallArm, mask: 2, value: 0 },
            Op::Modify { reg: Reg::EpOutBufferControl(0), mask: 0x800, value: 0 },
            Op::Wake(WakerId::Out(0)),
        ]
    );
}

#[test]
fn enabling_in_endpoints() {
    let mut bus = populated_bus();
    for (raw, n) in [(0x81, 1), (0x82, 2), (0x8f, 15)] {
        let mut ops = OpList::new();
        bus.endpoint_set_enabled(&mut ops, EndpointAddress { raw }, true);
        let ops = all_ops(&ops);
        assert_eq!(
            ops,
            vec![
                Op::Modify {
                    reg: Reg::EpInControl(n - 1),
                    mask: 0x8000_0000,
                    value: 0x8000_0000
                },
                Op::Write { reg: Reg::EpInBufferControl(n), value: 0x2000 },
                Op::Wake(WakerId::In(n)),
            ]
        );
        assert_eq!(left_in(&ops, Reg::EpInControl(n - 1), 0x6800_0180), 0xe800_0180);
    }
}

#[test]
fn enabling_out_endpoints() {
    let mut bus = populated_bus();
    // endpoint, first word, second word
    let cases = [
        (1, 0x2040_0040, 0x2440_0440),
        (2, 0x0000_0008, 0x0000_0408),
        (15, 0x0000_0000, 0x0000_0400),
    ];
    for (n, first, second) in cases {
        let reg = Reg::EpOutBufferControl(n);
        for enabled in [false, true] {
            let mut ops = OpList::new();
            let addr = EndpointAddress { raw: n as u8 };
            bus.endpoint_set_enabled(&mut ops, addr, enabled);
            assert_eq!(
                all_ops(&ops),
                vec![
                    Op::Modify {
                        reg: Reg::EpOutControl(n - 1),
                        mask: 0x8000_0000,
                        value: if enabled { 0x8000_0000 } else { 0 },
                    },
                    Op::Write { reg, value: first },
                    Op::Delay(12),
                    Op::Write { reg, value: second },
                    Op::Wake(WakerId::Out(n)),
                ]
            );
        }
    }
}

#[test]
fn endpoint_zero_is_always_enabled() {
    let mut bus = populated_bus();
    let mut ops = OpList::new();
    bus.endpoint_set_enabled(&mut ops, EndpointAddress { raw: 0x80 }, false);
    bus.endpoint_set_enabled(&mut ops, EndpointAddress { raw: 0x00 }, true);
    assert_eq!(ops.len(), 0);
}

#[test]
fn no_remote_wakeup() {
    let mut bus = new_bus();
    bus.enable();
    bus.disable();
    assert_eq!(bus.remote_wakeup(), Err(Unsupported));
    let mut st = PollState::Begin;
    assert_eq!(step(&mut bus, &mut st, 0).1, Request::Ready(Event::PowerDetected));
}
