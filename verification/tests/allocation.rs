use rp_usb::driver::{Driver, EndpointData};
use rp_usb::instance::{Dir, In, Instance, Out};
use rp_usb::ops::{Op, OpList, WakerId};
use rp_usb::regs::{Place, Reg};
use rp_usb::types::{Direction, EndpointAddress, EndpointAllocError, EndpointInfo, EndpointType};

struct Usb;

impl Instance for Usb {
    type Interrupt = ();
}

fn listed(ops: &OpList) -> Vec<Op> {
    (0..ops.len()).map(|i| ops.get(i)).collect()
}

fn new_driver() -> Driver<'static, Usb> {
    Driver::new(&mut OpList::new())
}

fn request<D: Dir>(
    d: &mut Driver<'static, Usb>,
    ep_type: EndpointType,
    raw: Option<u8>,
    mps: u16,
) -> Result<(EndpointInfo, Vec<Op>), EndpointAllocError> {
    let mut ops = OpList::new();
    let addr = raw.map(|raw| EndpointAddress { raw });
    let ep = d.alloc_endpoint::<D>(&mut ops, ep_type, addr, mps, 5)?;
    Ok((*ep.info(), listed(&ops)))
}

fn word_of(op: Op) -> u32 {
    match op {
        Op::Write { value, .. } => value,
        _ => panic!("not a write"),
    }
}

#[test]
fn allocation_by_direction() {
    let mut d = new_driver();
    let mut ops = OpList::new();
    let ep_in = d.alloc_endpoint_in(&mut ops, EndpointType::Bulk, None, 64, 1).ok().unwrap();
    let named = Some(EndpointAddress { raw: 0x04 });
    let ep_out = d.alloc_endpoint_out(&mut ops, EndpointType::Interrupt, named, 8, 2).ok().unwrap();
    assert_eq!(ep_in.info().addr, EndpointAddress { raw: 0x81 });
    assert_eq!(ep_out.info().addr, EndpointAddress { raw: 0x04 });
    assert_eq!(
        listed(&ops),
        vec![
            Op::Write { reg: Reg::EpInControl(0), value: 0x6800_0180 },
            Op::Write { reg: Reg::EpOutControl(3), value: 0x2c00_0200 },
        ]
    );
    assert!(d.alloc_endpoint_out(&mut ops, EndpointType::Interrupt, named, 8, 2).is_err());
    assert!(d.alloc_endpoint_in(&mut ops, EndpointType::Bulk, None, 65, 1).is_err());
    assert_eq!(ops.len(), 2);
}

#[test]
fn directions_as_types() {
    assert_eq!(<In as Dir>::dir(), Direction::In);
    assert_eq!(<Out as Dir>::dir(), Direction::Out);
}

#[test]
fn bring_up_clears_then_switches_on() {
    let mut ops = OpList::new();
    let _driver: Driver<'static, Usb> = Driver::new(&mut ops);
    let ops = listed(&ops);
    assert_eq!(ops.len(), 109);
    assert_eq!(ops[0], Op::UnpendInterrupt);
    assert_eq!(ops[1], Op::EnableInterrupt);
    for i in 0..39 {
        assert_eq!(ops[2 + i], Op::ClearRegWord(i));
    }
    for i in 0..64 {
        assert_eq!(ops[41 + i], Op::ClearDpramWord(i));
    }
    assert_eq!(ops[105], Op::Write { reg: Reg::UsbMuxing, value: 0x9 });
    assert_eq!(ops[106], Op::Write { reg: Reg::UsbPwr, value: 0xc });
    assert_eq!(ops[107], Op::Write { reg: Reg::MainCtrl, value: 1 });
    assert_eq!(ops[108], Op::Wake(WakerId::Bus));
}

#[test]
fn bring_up_leaves_three_words() {
    let mut ops = OpList::new();
    let _driver: Driver<'static, Usb> = Driver::new(&mut ops);
    let mut controller = vec![0xffff_ffffu32; 39];
    let mut dpram = vec![0xffff_ffffu32; 64];
    for op in listed(&ops) {
        match op {
            Op::ClearRegWord(n) => controller[n] = 0,
            Op::ClearDpramWord(n) => dpram[n] = 0,
            Op::Write { reg, value } => match reg.place() {
                Place::Controller(n) => controller[n] = value,
                Place::Dpram(n) => dpram[n] = value,
            },
            _ => {}
        }
    }
    let mut expected = vec![0; 39];
    expected[0x74 / 4] = 0x9;
    expected[0x78 / 4] = 0xc;
    expected[0x40 / 4] = 0x1;
    assert_eq!(controller, expected);
    assert_eq!(dpram, vec![0; 64]);
}

#[test]
fn start_switches_interrupts_and_pull_up_on() {
    let mut ops = OpList::new();
    let (_bus, pipe) = new_driver().start(&mut ops, 8);
    assert_eq!(
        listed(&ops),
        vec![
            Op::Write { reg: Reg::Inte, value: 0x0001_d010 },
            Op::Write { reg: Reg::IntEpCtrl, value: 0xfffc },
            Op::Write { reg: Reg::SieCtrl, value: 0x2001_0000 },
        ]
    );
    assert_eq!(pipe.max_packet_size(), 64);
}

#[test]
fn bulk_endpoints_take_two_buffers() {
    let mut d = new_driver();
    let (info, ops) = request::<In>(&mut d, EndpointType::Bulk, None, 64).unwrap();
    assert_eq!(
        info,
        EndpointInfo {
            addr: EndpointAddress { raw: 0x81 },
            ep_type: EndpointType::Bulk,
            max_packet_size: 64,
            interval_ms: 5,
        }
    );
    assert_eq!(ops, vec![Op::Write { reg: Reg::EpInControl(0), value: 0x6800_0180 }]);
    let (info, ops) = request::<Out>(&mut d, EndpointType::Bulk, None, 10).unwrap();
    assert_eq!(info.addr, EndpointAddress { raw: 0x01 });
    assert_eq!(ops, vec![Op::Write { reg: Reg::EpOutControl(0), value: 0x6800_0200 }]);
    let (info, ops) = request::<Out>(&mut d, EndpointType::Interrupt, None, 8).unwrap();
    assert_eq!(info.addr, EndpointAddress { raw: 0x02 });
    assert_eq!(ops, vec![Op::Write { reg: Reg::EpOutControl(1), value: 0x2c00_0280 }]);
    let (_, ops) = request::<In>(&mut d, EndpointType::Control, None, 8).unwrap();
    assert_eq!(ops, vec![Op::Write { reg: Reg::EpInControl(1), value: 0x2000_02c0 }]);
}

#[test]
fn control_word_is_what_the_setters_give() {
    let mut d = new_driver();
    let types = [
        (EndpointType::Bulk, rp_pac::usb_dpram::vals::EpControlEndpointType::BULK),
        (EndpointType::Control, rp_pac::usb_dpram::vals::EpControlEndpointType::CONTROL),
        (EndpointType::Interrupt, rp_pac::usb_dpram::vals::EpControlEndpointType::INTERRUPT),
        (EndpointType::Isochronous, rp_pac::usb_dpram::vals::EpControlEndpointType::ISOCHRONOUS),
    ];
    let mut addr = 0x180;
    for (ours, theirs) in types {
        let (_, ops) = request::<Out>(&mut d, ours, None, 64).unwrap();
        let mut w = rp_pac::usb_dpram::regs::EpControl::default();
        w.set_enable(false);
        w.set_buffer_address(addr);
        w.set_interrupt_per_buff(true);
        w.set_endpoint_type(theirs);
        w.set_double_buffered(ours == EndpointType::Bulk);
        assert_eq!(word_of(ops[0]), w.0);
        addr += if ours == EndpointType::Bulk { 128 } else { 64 };
    }
}

#[test]
fn named_endpoints() {
    let mut d = new_driver();
    let (info, _) = request::<In>(&mut d, EndpointType::Interrupt, Some(0x85), 8).unwrap();
    assert_eq!(info.addr, EndpointAddress { raw: 0x85 });
    // The direction comes from the kind of endpoint, not from the address.
    let (info, _) = request::<In>(&mut d, EndpointType::Interrupt, Some(0x06), 8).unwrap();
    assert_eq!(info.addr, EndpointAddress { raw: 0x86 });
    assert!(request::<In>(&mut d, EndpointType::Interrupt, Some(0x85), 8).is_err());
    assert!(request::<Out>(&mut d, EndpointType::Interrupt, Some(0x05), 8).is_ok());
    assert!(request::<In>(&mut d, EndpointType::Interrupt, Some(0x80), 8).is_err());
    assert!(request::<In>(&mut d, EndpointType::Interrupt, Some(0x90), 8).is_err());
    assert!(request::<In>(&mut d, EndpointType::Interrupt, Some(0x8f), 8).is_ok());
}

#[test]
fn unnamed_requests_get_the_lowest_endpoint() {
    let mut d = new_driver();
    request::<Out>(&mut d, EndpointType::Interrupt, Some(0x02), 8).unwrap();
    let mut got = Vec::new();
    for _ in 0..14 {
        got.push(request::<Out>(&mut d, EndpointType::Interrupt, None, 8).unwrap().0.addr.index());
    }
    assert_eq!(got, vec![1, 3, 4, 5, 6, 7, 8, 9, 10, 11, 12, 13, 14, 15]);
    assert_eq!(
        request::<Out>(&mut d, EndpointType::Interrupt, None, 8),
        Err(EndpointAllocError)
    );
    assert!(request::<In>(&mut d, EndpointType::Interrupt, None, 8).is_ok());
}

#[test]
fn packet_sizes() {
    let mut d = new_driver();
    for t in [EndpointType::Bulk, EndpointType::Control, EndpointType::Interrupt] {
        assert!(request::<In>(&mut d, t, None, 65).is_err());
        assert!(request::<In>(&mut d, t, None, 64).is_ok());
    }
    assert!(request::<In>(&mut d, EndpointType::Isochronous, None, 1024).is_err());
    assert!(request::<In>(&mut d, EndpointType::Isochronous, None, 65535).is_err());
    let iso = EndpointType::Isochronous;
    let before = word_of(request::<In>(&mut d, iso, None, 1023).unwrap().1[0]);
    let after = word_of(request::<In>(&mut d, iso, None, 0).unwrap().1[0]);
    assert_eq!((after & 0xffff) - (before & 0xffff), 1024);
    // An endpoint without a byte of packet takes no memory.
    let last = word_of(request::<In>(&mut d, EndpointType::Interrupt, None, 1).unwrap().1[0]);
    assert_eq!(last & 0xffff, after & 0xffff);
}

#[test]
fn memory_runs_out() {
    let mut d = new_driver();
    // 0x180 + 3 * 1024 = 0xd80, which leaves 640 bytes.
    for _ in 0..3 {
        request::<In>(&mut d, EndpointType::Isochronous, None, 1000).unwrap();
    }
    assert!(request::<Out>(&mut d, EndpointType::Isochronous, None, 641).is_err());
    // A refused request costs nothing.
    assert!(request::<Out>(&mut d, EndpointType::Isochronous, None, 640).is_ok());
    assert!(request::<Out>(&mut d, EndpointType::Interrupt, None, 1).is_err());
    assert!(request::<Out>(&mut d, EndpointType::Bulk, None, 1).is_err());
}

#[test]
fn endpoints_do_not_overlap() {
    let mut d = new_driver();
    let types = [
        EndpointType::Bulk,
        EndpointType::Interrupt,
        EndpointType::Isochronous,
        EndpointType::Control,
    ];
    let mut regions: Vec<(u32, u32)> = Vec::new();
    let mut names = Vec::new();
    for k in 0..28usize {
        let t = types[k % 4];
        let mps = (k * 7 % 64 + 1) as u16;
        let granted = if k % 2 == 0 {
            request::<In>(&mut d, t, None, mps)
        } else {
            request::<Out>(&mut d, t, None, mps)
        };
        let (info, ops) = granted.unwrap();
        let start = word_of(ops[0]) & 0xffff;
        let len = if t == EndpointType::Bulk { 128 } else { 64 };
        assert_eq!(start % 64, 0);
        assert!(start >= 0x180 && start + len <= 4096);
        for (s, e) in &regions {
            assert!(start >= *e || start + len <= *s);
        }
        assert!(!names.contains(&info.addr));
        regions.push((start, start + len));
        names.push(info.addr);
    }
}

#[test]
fn new_endpoint_data_is_unused() {
    assert_eq!(
        EndpointData::new(),
        EndpointData {
            ep_type: EndpointType::Bulk,
            max_packet_size: 0,
            used: false,
            double_buffered: false,
        }
    );
}
