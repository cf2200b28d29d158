use rp_usb::buffer::BufIdx;
use rp_usb::driver::Driver;
use rp_usb::endpoint::{EnableState, Endpoint, ReadState, WriteState};
use rp_usb::instance::{In, Instance, Out};
use rp_usb::ops::{Op, OpList, Request, WakerId};
use rp_usb::regs::Reg;
use rp_usb::types::{EndpointAddress, EndpointError, EndpointType};

struct Port;

impl Instance for Port {
    type Interrupt = ();
}

/// What one step gives.
type Step<R> = (Vec<Op>, Request<R>);

fn pushed(ops: &OpList) -> Vec<Op> {
    (0..ops.len()).map(|i| ops.get(i)).collect()
}

fn fresh() -> Driver<'static, Port> {
    Driver::new(&mut OpList::new())
}

/// An OUT endpoint 3 with its first buffer at 0x180.
fn out_endpoint(t: EndpointType, mps: u16) -> Endpoint<'static, Port, Out> {
    let named = Some(EndpointAddress { raw: 0x03 });
    fresh().alloc_endpoint_out(&mut OpList::new(), t, named, mps, 1).ok().unwrap()
}

/// An IN endpoint 3 with its first buffer at 0x180.
fn in_endpoint(t: EndpointType, mps: u16) -> Endpoint<'static, Port, In> {
    let named = Some(EndpointAddress { raw: 0x83 });
    fresh().alloc_endpoint_in(&mut OpList::new(), t, named, mps, 1).ok().unwrap()
}

fn numbered() -> Vec<u8> {
    (0..4096usize).map(|i| (i ^ (i >> 6)) as u8).collect()
}

fn read_step(
    ep: &mut Endpoint<'static, Port, Out>,
    st: &mut ReadState,
    word: u32,
    mem: &[u8],
    buf: &mut [u8],
) -> Step<Result<usize, EndpointError>> {
    assert!(ep.is_packet_plausible(st, word, buf.len()));
    let mut ops = OpList::new();
    let r = ep.read(st, word, mem, buf, &mut ops);
    (pushed(&ops), r)
}

fn write_step(
    ep: &mut Endpoint<'static, Port, In>,
    st: &mut WriteState,
    word: u32,
    mem: &mut [u8],
    buf: &[u8],
) -> Step<Result<(), EndpointError>> {
    let mut ops = OpList::new();
    let r = ep.write(st, word, mem, buf, &mut ops);
    (pushed(&ops), r)
}

fn two_writes(reg: Reg, first: u32, second: u32) -> Vec<Op> {
    vec![Op::Write { reg, value: first }, Op::Delay(12), Op::Write { reg, value: second }]
}

#[test]
fn waiting_for_an_endpoint() {
    let mut ep = out_endpoint(EndpointType::Bulk, 64);
    let mut st = EnableState::Wait;
    for (word, expected) in
        [(0x6800_0180, Request::Pending), (0xe800_0180, Request::Ready(()))]
    {
        let mut ops = OpList::new();
        let r = ep.wait_enabled(&mut st, 0xffff_ffff, &mut ops);
        assert_eq!(r, Request::Read(Reg::EpOutControl(2)));
        assert_eq!(pushed(&ops), vec![Op::Register(WakerId::Out(3))]);
        let mut ops = OpList::new();
        assert_eq!(ep.wait_enabled(&mut st, word, &mut ops), expected);
        assert_eq!((ops.len(), st), (0, EnableState::Wait));
    }
    let mut ep = in_endpoint(EndpointType::Interrupt, 8);
    let mut ops = OpList::new();
    let r = ep.wait_enabled(&mut st, 0, &mut ops);
    assert_eq!(r, Request::Read(Reg::EpInControl(2)));
    assert_eq!(pushed(&ops), vec![Op::Register(WakerId::In(3))]);
}

#[test]
fn read_with_one_buffer() {
    let mut ep = out_endpoint(EndpointType::Interrupt, 8);
    let reg = Reg::EpOutBufferControl(3);
    let mem = numbered();
    let mut buf = [0xee; 12];
    let mut st = ReadState::Wait;
    let register = vec![Op::Register(WakerId::Out(3))];
    let asked = (register, Request::Read(reg));
    assert_eq!(read_step(&mut ep, &mut st, 0, &mem, &mut buf), asked);
    // Still with the controller.
    let r = read_step(&mut ep, &mut st, 0x0408, &mem, &mut buf);
    assert_eq!((r, st), ((vec![], Request::Pending), ReadState::Wait));
    assert_eq!(buf, [0xee; 12]);
    assert_eq!(read_step(&mut ep, &mut st, 0, &mem, &mut buf), asked);
    // Five bytes of DATA0: the next packet is DATA1.
    let r = read_step(&mut ep, &mut st, 0x8005, &mem, &mut buf);
    assert_eq!(r, (two_writes(reg, 0x2008, 0x2408), Request::Ready(Ok(5))));
    assert_eq!(st, ReadState::Wait);
    assert_eq!(buf[..5], mem[0x180..0x185]);
    assert_eq!(buf[5..], [0xee; 7]);
    // Eight bytes of DATA1: the next packet is DATA0.
    read_step(&mut ep, &mut st, 0, &mem, &mut buf);
    let r = read_step(&mut ep, &mut st, 0xa008, &mem, &mut buf);
    assert_eq!(r, (two_writes(reg, 0x0008, 0x0408), Request::Ready(Ok(8))));
}

#[test]
fn read_without_room() {
    let mem = numbered();
    let overflow = (vec![], Request::Ready(Err(EndpointError::BufferOverflow)));
    let mut ep = out_endpoint(EndpointType::Interrupt, 8);
    let mut st = ReadState::Sample;
    let mut buf = [0xee; 4];
    assert_eq!(read_step(&mut ep, &mut st, 0x8005, &mem, &mut buf), overflow);
    assert_eq!((buf, st), ([0xee; 4], ReadState::Wait));

    let mut ep = out_endpoint(EndpointType::Bulk, 64);
    let mut st = ReadState::Choose(0x0440_8005);
    assert_eq!(read_step(&mut ep, &mut st, 0, &mem, &mut buf), overflow);
    assert_eq!((buf, st), ([0xee; 4], ReadState::Wait));
}

#[test]
fn read_with_two_buffers() {
    let mut ep = out_endpoint(EndpointType::Bulk, 64);
    let reg = Reg::EpOutBufferControl(3);
    let mem = numbered();
    // buffer control word, word of BUFF_CPU_SHOULD_HANDLE, buffer that is served, bytes
    let cases = [
        (0xa010_8020, 0x00, BufIdx::Buf0, 0x180, 0x20),
        (0xa010_8020, 0x80, BufIdx::Buf1, 0x1c0, 0x10),
        (0xa010_0440, 0x00, BufIdx::Buf1, 0x1c0, 0x10),
        (0x2440_8020, 0x80, BufIdx::Buf0, 0x180, 0x20),
        (0x2440_8020, 0x40, BufIdx::Buf0, 0x180, 0x20),
    ];
    for (word, handle, b, at, len) in cases {
        let mut st = ReadState::Wait;
        let mut buf = vec![0; 64];
        read_step(&mut ep, &mut st, 0, &mem, &mut buf);
        let r = read_step(&mut ep, &mut st, word, &mem, &mut buf);
        assert_eq!(r, (vec![], Request::Read(Reg::BuffCpuShouldHandle)));
        assert_eq!(st, ReadState::Choose(word));
        let r = read_step(&mut ep, &mut st, handle, &mem, &mut buf);
        assert_eq!(r, (vec![], Request::Read(reg)));
        assert_eq!(st, ReadState::Rearm(b, b == BufIdx::Buf1, len));
        assert_eq!(buf[..len], mem[at..at + len]);
        assert_eq!(buf[len..], vec![0; 64 - len][..]);
    }
}

#[test]
fn read_gives_the_buffer_back() {
    let mut ep = out_endpoint(EndpointType::Bulk, 64);
    let reg = Reg::EpOutBufferControl(3);
    let mem = numbered();
    let mut buf = [0; 64];
    // The other buffer has finished in the meantime, which the fresh word shows.
    let mut st = ReadState::Rearm(BufIdx::Buf0, false, 7);
    let r = read_step(&mut ep, &mut st, 0xa010_8020, &mem, &mut buf);
    assert_eq!(r, (two_writes(reg, 0x2010_2040, 0x2010_2440), Request::Ready(Ok(7))));
    assert_eq!(st, ReadState::Wait);
    let mut st = ReadState::Rearm(BufIdx::Buf1, true, 9);
    let r = read_step(&mut ep, &mut st, 0xa010_0440, &mem, &mut buf);
    assert_eq!(r, (two_writes(reg, 0x0040_0440, 0x0440_0440), Request::Ready(Ok(9))));
    assert_eq!(buf, [0; 64]);
}

#[test]
fn read_waits_while_both_buffers_are_away() {
    let mut ep = out_endpoint(EndpointType::Bulk, 64);
    let mut st = ReadState::Sample;
    let r = read_step(&mut ep, &mut st, 0x2440_0440, &numbered(), &mut [0; 64]);
    assert_eq!((r, st), ((vec![], Request::Pending), ReadState::Wait));
}

#[test]
fn implausible_packets() {
    let ep = out_endpoint(EndpointType::Interrupt, 8);
    assert!(ep.is_packet_plausible(&ReadState::Sample, 64, 1000));
    assert!(!ep.is_packet_plausible(&ReadState::Sample, 65, 1000));
    assert!(ep.is_packet_plausible(&ReadState::Sample, 65, 64));
    assert!(ep.is_packet_plausible(&ReadState::Sample, 0x400 | 65, 1000));
    assert!(ep.is_packet_plausible(&ReadState::Wait, 65, 1000));
    let ep = out_endpoint(EndpointType::Bulk, 64);
    assert!(ep.is_packet_plausible(&ReadState::Sample, 65, 1000));
    assert!(!ep.is_packet_plausible(&ReadState::Choose(65), 0, 1000));
    assert!(ep.is_packet_plausible(&ReadState::Choose(65), 0x80, 1000));
    assert!(ep.is_packet_plausible(&ReadState::Rearm(BufIdx::Buf0, true, 1), 65, 1000));
}

#[test]
fn write_with_one_buffer() {
    let mut ep = in_endpoint(EndpointType::Interrupt, 8);
    let reg = Reg::EpInBufferControl(3);
    let mut mem = numbered();
    let before = mem.clone();
    let data = [9, 8, 7, 6, 5];
    let mut st = WriteState::Begin;
    let asked = (vec![Op::Register(WakerId::In(3))], Request::Read(reg));
    assert_eq!(write_step(&mut ep, &mut st, 0, &mut mem, &data), asked);
    let r = write_step(&mut ep, &mut st, 0xa408, &mut mem, &data);
    assert_eq!((r, st), ((vec![], Request::Pending), WriteState::Wait));
    assert_eq!(mem, before);
    assert_eq!(write_step(&mut ep, &mut st, 0, &mut mem, &data), asked);
    let r = write_step(&mut ep, &mut st, 0x2000, &mut mem, &data);
    assert_eq!(r, (two_writes(reg, 0x8005, 0x8405), Request::Ready(Ok(()))));
    assert_eq!(st, WriteState::Begin);
    assert_eq!(mem[0x180..0x185], data);
    assert_eq!(mem[..0x180], before[..0x180]);
    assert_eq!(mem[0x185..], before[0x185..]);
    // The next one is DATA1.
    write_step(&mut ep, &mut st, 0, &mut mem, &[]);
    let r = write_step(&mut ep, &mut st, 0x0005, &mut mem, &[]);
    assert_eq!(r, (two_writes(reg, 0xa000, 0xa400), Request::Ready(Ok(()))));
}

#[test]
fn write_of_a_long_packet() {
    for t in [EndpointType::Interrupt, EndpointType::Bulk] {
        let mut ep = in_endpoint(t, 8);
        let mut mem = numbered();
        let before = mem.clone();
        let mut st = WriteState::Begin;
        let r = write_step(&mut ep, &mut st, 0, &mut mem, &[0; 9]);
        assert_eq!(r, (vec![], Request::Ready(Err(EndpointError::BufferOverflow))));
        assert_eq!((mem, st), (before, WriteState::Begin));
    }
}

#[test]
fn write_with_two_buffers() {
    let mut ep = in_endpoint(EndpointType::Bulk, 64);
    let reg = Reg::EpInBufferControl(3);
    let data = [0x55; 33];
    // buffer control word, word of BUFF_CPU_SHOULD_HANDLE, buffer that is filled
    let cases = [
        (0x0000_2000, 0x00, BufIdx::Buf0, 0x180),
        (0x0000_2000, 0x40, BufIdx::Buf1, 0x1c0),
        (0x0000_2400, 0x00, BufIdx::Buf1, 0x1c0),
        (0x0400_2000, 0x40, BufIdx::Buf0, 0x180),
        (0x0400_2000, 0x80, BufIdx::Buf0, 0x180),
    ];
    for (word, handle, b, at) in cases {
        let mut mem = numbered();
        let before = mem.clone();
        let mut st = WriteState::Begin;
        write_step(&mut ep, &mut st, 0, &mut mem, &data);
        let r = write_step(&mut ep, &mut st, word, &mut mem, &data);
        assert_eq!(r, (vec![], Request::Read(Reg::BuffCpuShouldHandle)));
        assert_eq!(mem, before);
        let r = write_step(&mut ep, &mut st, handle, &mut mem, &data);
        assert_eq!(r, (vec![], Request::Read(reg)));
        assert_eq!(st, WriteState::Submit(b, b == BufIdx::Buf0));
        assert_eq!(mem[at..at + 33], data);
        assert_eq!(mem[..at], before[..at]);
        assert_eq!(mem[at + 33..], before[at + 33..]);
    }
    let mut mem = numbered();
    let mut st = WriteState::Sample;
    let r = write_step(&mut ep, &mut st, 0x0400_2400, &mut mem, &data);
    assert_eq!((r, st), ((vec![], Request::Pending), WriteState::Wait));
}

#[test]
fn first_packets_alternate() {
    let mut ep = in_endpoint(EndpointType::Bulk, 64);
    let reg = Reg::EpInBufferControl(3);
    let mut mem = numbered();
    // The word of an endpoint that was just enabled.
    let mut st = WriteState::Choose(0x0000_2000);
    write_step(&mut ep, &mut st, 0, &mut mem, &[1; 64]);
    let r = write_step(&mut ep, &mut st, 0x0000_2000, &mut mem, &[1; 64]);
    assert_eq!(r, (two_writes(reg, 0x0000_8040, 0x0000_8440), Request::Ready(Ok(()))));
    // DATA0 is under way in buffer 0, DATA1 follows in buffer 1.
    let mut st = WriteState::Choose(0x0000_8440);
    write_step(&mut ep, &mut st, 0x40, &mut mem, &[2; 3]);
    let r = write_step(&mut ep, &mut st, 0x0000_8440, &mut mem, &[2; 3]);
    assert_eq!(r, (two_writes(reg, 0xa003_8440, 0xa403_8440), Request::Ready(Ok(()))));
    // Buffer 0 is back: DATA1 follows DATA0 in it.
    let mut st = WriteState::Choose(0xa403_0040);
    write_step(&mut ep, &mut st, 0, &mut mem, &[]);
    let r = write_step(&mut ep, &mut st, 0xa403_0040, &mut mem, &[]);
    assert_eq!(r, (two_writes(reg, 0xa403_a000, 0xa403_a400), Request::Ready(Ok(()))));
}

#[test]
fn isochronous_packets_are_long() {
    let mut ep = in_endpoint(EndpointType::Isochronous, 1023);
    let mut mem = numbered();
    let mut st = WriteState::Begin;
    write_step(&mut ep, &mut st, 0, &mut mem, &[0x77; 1023]);
    let r = write_step(&mut ep, &mut st, 0x2000, &mut mem, &[0x77; 1023]);
    let reg = Reg::EpInBufferControl(3);
    assert_eq!(r, (two_writes(reg, 0x83ff, 0x87ff), Request::Ready(Ok(()))));
    assert_eq!(mem[0x180..0x180 + 1023], [0x77; 1023]);
}
