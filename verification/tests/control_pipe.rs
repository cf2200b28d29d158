use rp_usb::control::{AcceptState, ControlPipe, DataState, SetupState};
use rp_usb::driver::Driver;
use rp_usb::instance::Instance;
use rp_usb::ops::{Op, OpList, Request, WakerId};
use rp_usb::regs::Reg;
use rp_usb::types::EndpointError;

struct Core;

impl Instance for Core {
    type Interrupt = ();
}

const EP0_IN: Reg = Reg::EpInBufferControl(0);
const EP0_OUT: Reg = Reg::EpOutBufferControl(0);

fn pipe_for(mps: u16) -> ControlPipe<'static, Core> {
    let d: Driver<'static, Core> = Driver::new(&mut OpList::new());
    d.start(&mut OpList::new(), mps).1
}

fn appended(ops: &OpList) -> Vec<Op> {
    (0..ops.len()).map(|i| ops.get(i)).collect()
}

fn memory() -> Vec<u8> {
    (0..4096usize).map(|i| (i * 3 + 1 + (i >> 8)) as u8).collect()
}

fn pair(reg: Reg, first: u32, second: u32) -> Vec<Op> {
    vec![Op::Write { reg, value: first }, Op::Delay(12), Op::Write { reg, value: second }]
}

fn and(mut ops: Vec<Op>, op: Op) -> Vec<Op> {
    ops.push(op);
    ops
}

fn receive(
    pipe: &mut ControlPipe<'static, Core>,
    st: &mut DataState,
    word: u32,
    mem: &[u8],
    buf: &mut [u8],
) -> (Vec<Op>, Request<Result<usize, EndpointError>>) {
    assert!(pipe.is_data_plausible(st, word, buf.len()));
    let mut ops = OpList::new();
    let r = pipe.data_out(st, word, mem, buf, true, true, &mut ops);
    (appended(&ops), r)
}

fn send(
    pipe: &mut ControlPipe<'static, Core>,
    st: &mut DataState,
    word: u32,
    mem: &mut [u8],
    data: &[u8],
    last: bool,
) -> (Vec<Op>, Request<Result<(), EndpointError>>) {
    let mut ops = OpList::new();
    let r = pipe.data_in(st, word, mem, data, true, last, &mut ops);
    (appended(&ops), r)
}

#[test]
fn packets_of_the_pipe() {
    assert_eq!(pipe_for(8).max_packet_size(), 64);
    assert_eq!(pipe_for(64).max_packet_size(), 64);
}

#[test]
fn setup_packet() {
    let mut pipe = pipe_for(64);
    let mem = memory();
    let mut st = SetupState::Begin;
    let register = Op::Register(WakerId::Out(0));
    let mut ops = OpList::new();
    let r = pipe.setup(&mut st, 0xffff_ffff, &mem, &mut ops);
    assert_eq!(r, Request::Read(Reg::SieStatus));
    let unmask = Op::SetBits { reg: Reg::Inte, value: 0x1_0000 };
    assert_eq!(appended(&ops), vec![unmask, register]);

    let mut ops = OpList::new();
    assert_eq!(pipe.setup(&mut st, !0x2_0000, &mem, &mut ops), Request::Pending);
    assert_eq!((ops.len(), st), (0, SetupState::Wait));

    let mut ops = OpList::new();
    assert_eq!(pipe.setup(&mut st, 0, &mem, &mut ops), Request::Read(Reg::SieStatus));
    assert_eq!(appended(&ops), vec![register]);

    let mut ops = OpList::new();
    let r = pipe.setup(&mut st, 0x2_0000, &mem, &mut ops);
    assert_eq!(r, Request::Ready([1, 4, 7, 10, 13, 16, 19, 22]));
    assert_eq!(
        appended(&ops),
        vec![
            Op::Write { reg: Reg::SieStatus, value: 0x2_0000 },
            Op::Write { reg: EP0_IN, value: 0 },
            Op::Write { reg: EP0_OUT, value: 0 },
        ]
    );
    assert_eq!(st, SetupState::Begin);
}

#[test]
fn data_from_the_host() {
    let mut pipe = pipe_for(64);
    let mem = memory();
    let mut buf = [0; 10];
    let register = Op::Register(WakerId::Out(0));
    let mut st = DataState::Begin;
    let r = receive(&mut pipe, &mut st, 0, &mem, &mut buf);
    assert_eq!(r, (vec![], Request::Read(EP0_OUT)));
    // The setup stage has left PID 0: the first packet is DATA1.
    let r = receive(&mut pipe, &mut st, 0, &mem, &mut buf);
    assert_eq!(r, (and(pair(EP0_OUT, 0x2040, 0x2440), register), Request::Read(EP0_OUT)));
    let r = receive(&mut pipe, &mut st, 0x2440, &mem, &mut buf);
    assert_eq!((r, st), ((vec![], Request::Pending), DataState::Wait));
    let r = receive(&mut pipe, &mut st, 0, &mem, &mut buf);
    assert_eq!(r, (vec![register], Request::Read(EP0_OUT)));
    let r = receive(&mut pipe, &mut st, 0xa006, &mem, &mut buf);
    assert_eq!((r, st), ((vec![], Request::Ready(Ok(6))), DataState::Begin));
    assert_eq!(buf[..6], mem[0x100..0x106]);
    assert_eq!(buf[6..], [0; 4]);
    // The second one is DATA0.
    let mut st = DataState::Arm;
    let r = receive(&mut pipe, &mut st, 0xa006, &mem, &mut buf);
    assert_eq!(r.0, and(pair(EP0_OUT, 0x0040, 0x0440), register));
}

#[test]
fn data_from_the_host_that_does_not_fit() {
    let mut pipe = pipe_for(8);
    let mut buf = [3; 5];
    let mut st = DataState::Sample;
    let r = receive(&mut pipe, &mut st, 0xa006, &memory(), &mut buf);
    assert_eq!(r, (vec![], Request::Ready(Err(EndpointError::BufferOverflow))));
    assert_eq!((buf, st), ([3; 5], DataState::Begin));
    assert!(pipe.is_data_plausible(&DataState::Sample, 64, 64));
    assert!(!pipe.is_data_plausible(&DataState::Sample, 65, 65));
    assert!(pipe.is_data_plausible(&DataState::Sample, 65, 64));
    assert!(pipe.is_data_plausible(&DataState::Sample, 0x400 | 65, 65));
    assert!(pipe.is_data_plausible(&DataState::Arm, 65, 65));
    let mut st = DataState::Arm;
    let r = receive(&mut pipe, &mut st, 0, &memory(), &mut buf);
    assert_eq!(r.0[..3], pair(EP0_OUT, 0x2008, 0x2408)[..]);
}

#[test]
fn data_for_the_host() {
    let mut pipe = pipe_for(64);
    let before = memory();
    let data = [0xab; 18];
    let register = Op::Register(WakerId::In(0));
    for last in [false, true] {
        let mut mem = before.clone();
        let mut st = DataState::Begin;
        let r = send(&mut pipe, &mut st, 0, &mut mem, &data, last);
        assert_eq!(r, (vec![], Request::Read(EP0_IN)));
        assert_eq!(mem[0x100..0x112], data);
        assert_eq!(mem[..0x100], before[..0x100]);
        assert_eq!(mem[0x112..], before[0x112..]);
        let r = send(&mut pipe, &mut st, 0, &mut mem, &data, last);
        assert_eq!(r, (and(pair(EP0_IN, 0xa012, 0xa412), register), Request::Read(EP0_IN)));
        let r = send(&mut pipe, &mut st, 0xa412, &mut mem, &data, last);
        assert_eq!((r, st), ((vec![], Request::Pending), DataState::Wait));
        let r = send(&mut pipe, &mut st, 0, &mut mem, &data, last);
        assert_eq!(r, (vec![register], Request::Read(EP0_IN)));
        let r = send(&mut pipe, &mut st, 0x2012, &mut mem, &data, last);
        let status = if last { pair(EP0_OUT, 0x2000, 0x2400) } else { vec![] };
        assert_eq!((r, st), ((status, Request::Ready(Ok(()))), DataState::Begin));
        // The next one is DATA0.
        let mut st = DataState::Arm;
        let r = send(&mut pipe, &mut st, 0x2012, &mut mem, &[], last);
        assert_eq!(r.0, and(pair(EP0_IN, 0x8000, 0x8400), register));
    }
}

#[test]
fn data_for_the_host_that_is_too_long() {
    let mut pipe = pipe_for(64);
    let mut mem = memory();
    let mut st = DataState::Begin;
    let r = send(&mut pipe, &mut st, 0, &mut mem, &[0; 65], true);
    assert_eq!(r, (vec![], Request::Ready(Err(EndpointError::BufferOverflow))));
    assert_eq!((mem, st), (memory(), DataState::Begin));
    let mut mem = memory();
    let r = send(&mut pipe, &mut st, 0, &mut mem, &[0; 64], true);
    assert_eq!(r, (vec![], Request::Read(EP0_IN)));
    assert_eq!(mem[0x100..0x140], [0; 64]);
}

#[test]
fn accepting_a_request() {
    let mut pipe = pipe_for(64);
    let register = Op::Register(WakerId::In(0));
    let mut st = AcceptState::Begin;
    let mut ops = OpList::new();
    assert_eq!(pipe.accept(&mut st, 0, &mut ops), Request::Read(EP0_IN));
    assert_eq!(appended(&ops), and(pair(EP0_IN, 0xa000, 0xa400), register));
    let mut ops = OpList::new();
    assert_eq!(pipe.accept(&mut st, 0xa400, &mut ops), Request::Pending);
    assert_eq!((ops.len(), st), (0, AcceptState::Wait));
    assert_eq!(pipe.accept(&mut st, 0, &mut ops), Request::Read(EP0_IN));
    assert_eq!(appended(&ops), vec![register]);
    let mut ops = OpList::new();
    assert_eq!(pipe.accept(&mut st, 0x2000, &mut ops), Request::Ready(()));
    assert_eq!((ops.len(), st), (0, AcceptState::Begin));
}

#[test]
fn the_address_comes_after_the_status_packet() {
    let mut pipe = pipe_for(64);
    let mut st = AcceptState::Begin;
    let mut ops = OpList::new();
    let r = pipe.accept_set_address(&mut st, 0, 42, &mut ops);
    assert_eq!(r, Request::Read(EP0_IN));
    let status = and(pair(EP0_IN, 0xa000, 0xa400), Op::Register(WakerId::In(0)));
    assert_eq!(appended(&ops), status);
    let mut ops = OpList::new();
    assert_eq!(pipe.accept_set_address(&mut st, 0xa400, 42, &mut ops), Request::Pending);
    assert_eq!(ops.len(), 0);
    let mut ops = OpList::new();
    pipe.accept_set_address(&mut st, 0, 42, &mut ops);
    assert_eq!(appended(&ops), vec![Op::Register(WakerId::In(0))]);
    let mut ops = OpList::new();
    assert_eq!(pipe.accept_set_address(&mut st, 0x2000, 42, &mut ops), Request::Ready(()));
    assert_eq!(appended(&ops), vec![Op::Write { reg: Reg::AddrEndp, value: 42 }]);
}

#[test]
fn rejecting_a_request() {
    let mut ops = OpList::new();
    pipe_for(64).reject(&mut ops);
    assert_eq!(
        appended(&ops),
        vec![
            Op::SetBits { reg: Reg::EpStallArm, value: 3 },
            Op::Write { reg: EP0_OUT, value: 0x800 },
            Op::Write { reg: EP0_IN, value: 0x800 },
        ]
    );
}
