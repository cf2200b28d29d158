use rp_pac::usb_dpram::regs::EpBufferControl as PacWord;
use rp_usb::buffer::{
    write_in_buffer_control_double, write_out_buffer_control_double, BufIdx, DoubleBufConfig,
    EndpointBuffer, EpBufferControl, EP_MEMORY_SIZE,
};
use rp_usb::instance::Instance;
use rp_usb::ops::{push_handoff, Op, OpList, WakerId};
use rp_usb::regs::Reg;

struct Chip;

impl Instance for Chip {
    type Interrupt = ();
}

fn pattern() -> Vec<u8> {
    (0..EP_MEMORY_SIZE).map(|i| (i * 7 + i / 256) as u8).collect()
}

/// The two words of a handoff to the given register.
fn handed(ops: &OpList, reg: Reg) -> (u32, u32) {
    assert_eq!(ops.len(), 3);
    assert_eq!(ops.get(1), Op::Delay(12));
    match (ops.get(0), ops.get(2)) {
        (Op::Write { reg: a, value: first }, Op::Write { reg: b, value: second }) => {
            assert_eq!((a, b), (reg, reg));
            (first, second)
        }
        _ => panic!("not a handoff"),
    }
}

fn out_words(b: BufIdx, pid: bool, length: u16, available: bool, current: u32) -> (u32, u32) {
    let mut ops = OpList::new();
    let cur = EpBufferControl(current);
    write_out_buffer_control_double(&mut ops, 3, b, pid, length, available, &cur);
    handed(&ops, Reg::EpOutBufferControl(3))
}

fn in_words(b: BufIdx, pid: bool, length: u16, full: bool, current: u32) -> (u32, u32) {
    let mut ops = OpList::new();
    let cur = EpBufferControl(current);
    write_in_buffer_control_double(&mut ops, 15, b, pid, length, full, true, &cur);
    handed(&ops, Reg::EpInBufferControl(15))
}

#[test]
fn operations_come_out_in_order() {
    let mut ops = OpList::new();
    assert_eq!(ops.len(), 0);
    ops.push(Op::Wake(WakerId::Bus));
    push_handoff(&mut ops, Reg::EpInBufferControl(2), 0x40, 0x440);
    assert_eq!(ops.len(), 4);
    assert_eq!(ops.get(0), Op::Wake(WakerId::Bus));
    assert_eq!(ops.get(1), Op::Write { reg: Reg::EpInBufferControl(2), value: 0x40 });
    assert_eq!(ops.get(2), Op::Delay(12));
    assert_eq!(ops.get(3), Op::Write { reg: Reg::EpInBufferControl(2), value: 0x440 });
    while ops.len() < 128 {
        ops.push(Op::Delay(1));
    }
    assert_eq!(ops.get(127), Op::Delay(1));
}

#[test]
fn the_other_buffer() {
    assert_eq!((BufIdx::Buf0.index(), BufIdx::Buf1.index()), (0, 1));
    assert_eq!(BufIdx::Buf0.other(), BufIdx::Buf1);
    assert_eq!(BufIdx::Buf1.other(), BufIdx::Buf0);
}

#[test]
fn selecting_puts_the_new_one_in_its_place() {
    let a = DoubleBufConfig { pid: true, length: 3, available: false, full: true };
    let b = DoubleBufConfig::empty();
    assert_eq!(b, DoubleBufConfig { pid: false, length: 0, available: false, full: false });
    assert_eq!(DoubleBufConfig::select(BufIdx::Buf0, a, b), (a, b));
    assert_eq!(DoubleBufConfig::select(BufIdx::Buf1, a, b), (b, a));
}

#[test]
fn exact_words_of_an_out_handoff() {
    assert_eq!(
        out_words(BufIdx::Buf0, true, 64, true, 0xa40a_0000),
        (0x240a_2040, 0x240a_2440)
    );
    assert_eq!(
        out_words(BufIdx::Buf1, false, 64, true, 0x0000_a408),
        (0x0040_2408, 0x0440_2408)
    );
    assert_eq!(
        out_words(BufIdx::Buf1, false, 64, false, 0x0000_a408),
        (0x0040_2408, 0x0040_2408)
    );
}

#[test]
fn exact_words_of_an_in_handoff() {
    assert_eq!(
        in_words(BufIdx::Buf1, false, 64, true, 0x0000_a408),
        (0x8040_a408, 0x8440_a408)
    );
    assert_eq!(in_words(BufIdx::Buf0, true, 0, false, 0xffff_ffff), (0xa7ff_2000, 0xa7ff_2400));
}

#[test]
fn handoffs_are_what_the_field_setters_give() {
    for current in [0u32, 0xffff_ffff, 0x2440_a408, 0x0001_0400, 0x1234_5678] {
        let old = PacWord(current);
        for b in [BufIdx::Buf0, BufIdx::Buf1] {
            let (n, o) = (b.index(), b.other().index());
            for length in [0u16, 1, 63, 64, 1023] {
                for pid in [false, true] {
                    let mut w = PacWord::default();
                    w.set_pid(n, pid);
                    w.set_length(n, length);
                    w.set_pid(o, old.pid(o));
                    w.set_length(o, old.length(o));
                    w.set_available(o, old.available(o));
                    let first = w.0;
                    w.set_available(n, true);
                    assert_eq!(out_words(b, pid, length, true, current), (first, w.0));
                    assert_eq!(w.0 ^ first, 0x400 << (16 * n));

                    let mut w = PacWord(first);
                    w.set_full(n, true);
                    w.set_full(o, old.full(o));
                    let first = w.0;
                    w.set_available(n, true);
                    assert_eq!(in_words(b, pid, length, true, current), (first, w.0));
                }
            }
        }
    }
}

#[test]
fn buffer_addresses() {
    let single = EndpointBuffer::<Chip>::new(0x180, 64);
    assert_eq!((single.is_double_buffered(), single.buf_len()), (false, 64));
    assert_eq!(single.buf_addr(BufIdx::Buf0), 0x180);
    let double = EndpointBuffer::<Chip>::new_double_buffered(0x200, 128);
    assert_eq!((double.is_double_buffered(), double.buf_len()), (true, 128));
    assert_eq!(double.buf_addr(BufIdx::Buf0), 0x200);
    assert_eq!(double.buf_addr(BufIdx::Buf1), 0x280);
}

#[test]
fn what_is_written_is_read() {
    let mut mem = pattern();
    let before = mem.clone();
    let mut buf = EndpointBuffer::<Chip>::new_double_buffered(0x200, 64);
    let data: Vec<u8> = (0..40).map(|i| 200 - i).collect();
    buf.write_buf(BufIdx::Buf1, &mut mem, &data);
    let mut got = vec![0; 40];
    buf.read_buf(BufIdx::Buf1, &mem, &mut got);
    assert_eq!(got, data);
    assert_eq!(mem[..0x240], before[..0x240]);
    assert_eq!(mem[0x240..0x268], data[..]);
    assert_eq!(mem[0x268..], before[0x268..]);

    buf.write(&mut mem, &[1, 2, 3]);
    let mut got = [0; 3];
    buf.read(&mem, &mut got);
    assert_eq!(got, [1, 2, 3]);
    assert_eq!(mem[0x200..0x203], [1, 2, 3]);
    assert_eq!(mem[0x240..0x268], data[..]);
}

#[test]
fn whole_buffers_and_empty_ones() {
    let mut mem = pattern();
    let before = mem.clone();
    let mut last = EndpointBuffer::<Chip>::new(0xfc0, 64);
    let mut got = vec![0; 64];
    last.read(&mem, &mut got);
    assert_eq!(got[..], before[0xfc0..]);
    last.write(&mut mem, &[]);
    assert_eq!(mem, before);
    last.write(&mut mem, &[9; 64]);
    assert_eq!(mem[..0xfc0], before[..0xfc0]);
    assert_eq!(mem[0xfc0..], [9; 64]);
}
