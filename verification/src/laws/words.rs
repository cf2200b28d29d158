//! What the bits of the controller's words stand for.
//!
//! The other laws read and write words by the few functions that stand first in this file, which
//! count bits and nothing else.
use crate::buffer::{
    available_at, config_at, control_word, full_at, half_word, in_double_words, length_at,
    out_double_words, overlaid, pid_at, single_word, stall_at, BufIdx, BufferState, DoubleBufConfig,
};
use crate::driver::ep_control_word;
use crate::ops::{handoff, Op};
use crate::regs::{
    address_word, any_set, ep_in_bit, ep_out_bit, int_ep_active_word, merged, Reg,
    BUFFER_CONTROL_STALL, EP_CONTROL_DOUBLE_BUFFERED, EP_CONTROL_ENABLE,
    EP_CONTROL_INTERRUPT_PER_BUFF, INT_BUFF_STATUS, INT_BUS_RESET, INT_DEV_RESUME_FROM_HOST,
    INT_DEV_SUSPEND, INT_SETUP_REQ, SIE_STATUS_BUS_RESET, SIE_STATUS_RESUME, SIE_STATUS_SETUP_REC,
    SIE_STATUS_SUSPENDED,
};
use crate::types::{address_byte, Direction, EndpointAddress, EndpointType};
use vstd::prelude::*;

verus! {

/// Bit `n` of a word, counted from the lowest.
pub open spec fn bit(word: u32, n: u32) -> bool {
    (word >> n) & 1 == 1
}

/// The sixteen bits of a buffer control word that belong to a buffer.
pub open spec fn half(word: u32, b: BufIdx) -> int {
    match b {
        BufIdx::Buf0 => word as int % 0x1_0000,
        BufIdx::Buf1 => word as int / 0x1_0000,
    }
}

/// Bytes in a buffer.
pub open spec fn count(word: u32, b: BufIdx) -> int {
    half(word, b) % 0x400
}

/// A buffer is with the controller.
pub open spec fn held(word: u32, b: BufIdx) -> bool {
    half(word, b) / 0x400 % 2 == 1
}

/// A buffer is for DATA1.
pub open spec fn data1(word: u32, b: BufIdx) -> bool {
    half(word, b) / 0x2000 % 2 == 1
}

/// A buffer has data to send.
pub open spec fn filled_up(word: u32, b: BufIdx) -> bool {
    half(word, b) / 0x8000 % 2 == 1
}

/// `n` where `on`, 0 where not.
pub open spec fn if_on(on: bool, n: int) -> int {
    if on {
        n
    } else {
        0
    }
}

/// The sixteen bits for a buffer.
pub open spec fn half_value(length: int, available: bool, pid: bool, full: bool) -> int {
    length % 0x400 + if_on(available, 0x400) + if_on(pid, 0x2000) + if_on(full, 0x8000)
}

/// The word in which buffer `b` has the bits `mine` and the other buffer has the bits `others`.
pub open spec fn joined(b: BufIdx, mine: int, others: int) -> int {
    match b {
        BufIdx::Buf0 => mine + 0x1_0000 * others,
        BufIdx::Buf1 => others + 0x1_0000 * mine,
    }
}

/// The other buffer.
pub open spec fn opposite(b: BufIdx) -> BufIdx {
    if b is Buf0 {
        BufIdx::Buf1
    } else {
        BufIdx::Buf0
    }
}

/// The operations store one word in a register, wait twelve cycles and store another one there.
pub open spec fn stores_twice(ops: Seq<Op>, reg: Reg, first: int, last: int) -> bool {
    &&& ops.len() == 3
    &&& ops[0] matches Op::Write { reg: r, value } && r == reg && value == first
    &&& ops[1] == Op::Delay(12)
    &&& ops[2] matches Op::Write { reg: r, value } && r == reg && value == last
}

/// `got` is `buf` with the `n` bytes of `mem` from `at` on in front.
pub open spec fn copied(got: Seq<u8>, buf: Seq<u8>, mem: Seq<u8>, at: int, n: int) -> bool {
    &&& got.len() == buf.len()
    &&& forall|i: int|
        0 <= i < got.len() ==> #[trigger] got[i] == (if i < n {
            mem[at + i]
        } else {
            buf[i]
        })
}

/// `after` is `mem` with `data` in the place of the bytes from `at` on.
pub open spec fn replaced(after: Seq<u8>, mem: Seq<u8>, at: int, data: Seq<u8>) -> bool {
    &&& after.len() == mem.len()
    &&& forall|i: int|
        0 <= i < after.len() ==> #[trigger] after[i] == (if at <= i < at + data.len() {
            data[i - at]
        } else {
            mem[i]
        })
}

/// A test of a flag looks at the one bit that the flag has in its register.
pub proof fn law_flags(word: u32)
    ensures
        any_set(word, SIE_STATUS_SUSPENDED) == bit(word, 4),
        any_set(word, SIE_STATUS_RESUME) == bit(word, 11),
        any_set(word, SIE_STATUS_SETUP_REC) == bit(word, 17),
        any_set(word, SIE_STATUS_BUS_RESET) == bit(word, 19),
        any_set(word, INT_BUFF_STATUS) == bit(word, 4),
        any_set(word, INT_BUS_RESET) == bit(word, 12),
        any_set(word, INT_DEV_SUSPEND) == bit(word, 14),
        any_set(word, INT_DEV_RESUME_FROM_HOST) == bit(word, 15),
        any_set(word, INT_SETUP_REQ) == bit(word, 16),
        any_set(word, BUFFER_CONTROL_STALL) == bit(word, 11),
        any_set(word, EP_CONTROL_INTERRUPT_PER_BUFF) == bit(word, 29),
        any_set(word, EP_CONTROL_DOUBLE_BUFFERED) == bit(word, 30),
        any_set(word, EP_CONTROL_ENABLE) == bit(word, 31),
{
    assert((word & 0x10u32 != 0) == ((word >> 4) & 1 == 1) && (word & 0x800u32 != 0) == ((word
        >> 11) & 1 == 1) && (word & 0x2_0000u32 != 0) == ((word >> 17) & 1 == 1) && (word
        & 0x8_0000u32 != 0) == ((word >> 19) & 1 == 1) && (word & 0x1000u32 != 0) == ((word >> 12)
        & 1 == 1) && (word & 0x4000u32 != 0) == ((word >> 14) & 1 == 1) && (word & 0x8000u32 != 0)
        == ((word >> 15) & 1 == 1) && (word & 0x1_0000u32 != 0) == ((word >> 16) & 1 == 1) && (word
        & 0x2000_0000u32 != 0) == ((word >> 29) & 1 == 1) && (word & 0x4000_0000u32 != 0) == ((word
        >> 30) & 1 == 1) && (word & 0x8000_0000u32 != 0) == ((word >> 31) & 1 == 1))
        by (bit_vector);
}

/// A test of a mask of one bit looks at that bit, and a mask of several bits is tested bit by bit.
pub proof fn law_any_bit(word: u32, n: u32, a: u32, b: u32)
    requires
        n < 32,
    ensures
        any_set(word, 1u32 << n) == bit(word, n),
        any_set(word, a | b) == (any_set(word, a) || any_set(word, b)),
        !any_set(word, 0),
{
    assert((word & (1u32 << n) != 0) == ((word >> n) & 1 == 1)) by (bit_vector)
        requires
            n < 32,
    ;
    assert((word & (a | b) != 0) == (word & a != 0 || word & b != 0)) by (bit_vector);
    assert(word & 0 == 0) by (bit_vector);
}

/// A merge takes each bit from the new value where the mask has it, and from the old word where
/// not.
pub proof fn law_merge(old_word: u32, mask: u32, value: u32, n: u32)
    requires
        n < 32,
    ensures
        bit(merged(old_word, mask, value), n) == (if bit(mask, n) {
            bit(value, n)
        } else {
            bit(old_word, n)
        }),
{
    assert((((old_word & !mask) | (value & mask)) >> n) & 1 == (if (mask >> n) & 1 == 1 {
        (value >> n) & 1
    } else {
        (old_word >> n) & 1
    })) by (bit_vector)
        requires
            n < 32,
    ;
}

/// Each endpoint has two bits of its own, IN below OUT, in the order of the endpoints.
pub proof fn law_endpoint_bits(word: u32, n: u32)
    requires
        n < 16,
    ensures
        ep_in_bit(word, n as int) == any_set(word, 1u32 << (2 * n) as u32),
        ep_out_bit(word, n as int) == any_set(word, 1u32 << (2 * n + 1) as u32),
        ep_in_bit(word, n as int) == bit(word, (2 * n) as u32),
        ep_out_bit(word, n as int) == bit(word, (2 * n + 1) as u32),
{
    law_any_bit(word, (2 * n) as u32, 0, 0);
    law_any_bit(word, (2 * n + 1) as u32, 0, 0);
}

/// What is read from a buffer control word: ten bits of length, then one bit for a buffer that is
/// with the controller, and above it those for the PID and for data to send; all of it once for
/// each buffer, and a bit for a stall.
pub proof fn law_word_fields(word: u32, b: BufIdx)
    ensures
        length_at(word, b) == count(word, b),
        available_at(word, b) == held(word, b),
        pid_at(word, b) == data1(word, b),
        full_at(word, b) == filled_up(word, b),
        config_at(word, b) == (DoubleBufConfig {
            pid: data1(word, b),
            length: count(word, b) as u16,
            available: held(word, b),
            full: filled_up(word, b),
        }),
        stall_at(word) == bit(word, 11),
{
    lemma_fields(word);
}

proof fn lemma_fields(w: u32)
    by (bit_vector)
    ensures
        ((w >> 0u32) & 0x3ff) as u16 == w % 0x1_0000 % 0x400,
        (((w >> 0u32) >> 10u32) & 1 == 1) == (w % 0x1_0000 / 0x400 % 2 == 1),
        (((w >> 0u32) >> 13u32) & 1 == 1) == (w % 0x1_0000 / 0x2000 % 2 == 1),
        (((w >> 0u32) >> 15u32) & 1 == 1) == (w % 0x1_0000 / 0x8000 % 2 == 1),
        ((w >> 16u32) & 0x3ff) as u16 == w / 0x1_0000 % 0x400,
        (((w >> 16u32) >> 10u32) & 1 == 1) == (w / 0x1_0000 / 0x400 % 2 == 1),
        (((w >> 16u32) >> 13u32) & 1 == 1) == (w / 0x1_0000 / 0x2000 % 2 == 1),
        (((w >> 16u32) >> 15u32) & 1 == 1) == (w / 0x1_0000 / 0x8000 % 2 == 1),
{
}

/// What is put into a buffer control word: the bits of both buffers and no other bit.
pub proof fn law_word_value(b0: DoubleBufConfig, b1: DoubleBufConfig)
    ensures
        control_word(b0, b1) == joined(
            BufIdx::Buf0,
            half_value(b0.length as int, b0.available, b0.pid, b0.full),
            half_value(b1.length as int, b1.available, b1.pid, b1.full),
        ),
        single_word(b0) == half_value(b0.length as int, b0.available, b0.pid, b0.full),
{
    lemma_half_value(b0.pid, b0.length, b0.available, b0.full);
    lemma_half_value(b1.pid, b1.length, b1.available, b1.full);
    lemma_half_value(false, 0, false, false);
    let h0 = half_word(b0.pid, b0.length, b0.available, b0.full);
    let h1 = half_word(b1.pid, b1.length, b1.available, b1.full);
    lemma_halves(h0, h1);
    lemma_halves(h0, half_word(false, 0, false, false));
}

proof fn lemma_half_value(p: bool, l: u16, a: bool, f: bool)
    by (bit_vector)
    ensures
        half_word(p, l, a, f) == (l % 0x400) + (if a {
            0x400u32
        } else {
            0
        }) + (if p {
            0x2000u32
        } else {
            0
        }) + (if f {
            0x8000u32
        } else {
            0
        }),
        half_word(p, l, a, f) < 0x1_0000,
{
}

proof fn lemma_halves(h0: u32, h1: u32)
    by (bit_vector)
    requires
        h0 < 0x1_0000,
        h1 < 0x1_0000,
    ensures
        h0 | (h1 << 16) == h0 + 0x1_0000 * h1,
{
}

/// The two words that hand one of two buffers over: that buffer gets the new bits, its available
/// bit only in the second word, and the other buffer keeps its own, but for the bit of data to
/// send, which an OUT endpoint has no use for.
pub proof fn law_double_words(
    b: BufIdx,
    pid: bool,
    length: u16,
    full: bool,
    available: bool,
    current: u32,
)
    ensures
        ({
            let o = opposite(b);
            let kept_out = half_value(
                count(current, o),
                held(current, o),
                data1(current, o),
                false,
            );
            let kept_in = half_value(
                count(current, o),
                held(current, o),
                data1(current, o),
                filled_up(current, o),
            );
            let out = out_double_words(b, pid, length, available, current);
            let ins = in_double_words(b, pid, length, full, available, current);
            &&& out.0 == joined(b, half_value(length as int, false, pid, false), kept_out)
            &&& out.1 == joined(b, half_value(length as int, available, pid, false), kept_out)
            &&& ins.0 == joined(b, half_value(length as int, false, pid, full), kept_in)
            &&& ins.1 == joined(b, half_value(length as int, available, pid, full), kept_in)
        }),
{
    let o = opposite(b);
    law_word_fields(current, o);
    let kept = config_at(current, o);
    let kept_out = DoubleBufConfig { full: false, ..kept };
    let out = DoubleBufConfig { pid, length, available: false, full: false };
    let ins = DoubleBufConfig { pid, length, available: false, full };
    match b {
        BufIdx::Buf0 => {
            law_word_value(out, kept_out);
            law_word_value(out.with_available(available), kept_out);
            law_word_value(ins, kept);
            law_word_value(ins.with_available(available), kept);
        },
        BufIdx::Buf1 => {
            law_word_value(kept_out, out);
            law_word_value(kept_out, out.with_available(available));
            law_word_value(kept, ins);
            law_word_value(kept, ins.with_available(available));
        },
    }
}

/// Handing a buffer over stores both words in the register, the second one twelve cycles after the
/// first.
pub proof fn law_handoff(reg: Reg, first: u32, second: u32)
    ensures
        stores_twice(handoff(reg, first, second), reg, first as int, second as int),
{
}

/// Seven bits of device address go into `ADDR_ENDP`, and fifteen bits, from bit 1 on, into
/// `INT_EP_CTRL`.
pub proof fn law_small_fields(addr: u8, active: u16)
    ensures
        address_word(addr) == addr % 128,
        int_ep_active_word(active) == 2 * (active % 0x8000),
{
    assert((addr & 0x7f) as u32 == addr % 128) by (bit_vector);
    assert(((active & 0x7fff) as u32) << 1 == 2 * (active % 0x8000)) by (bit_vector);
}

/// The control word of an endpoint has the address of its buffer in its lower half, the bit for an
/// interrupt per buffer, the type, and the bit for two buffers where there are two; nothing else,
/// so the endpoint is not enabled.
pub proof fn law_ep_control_value(addr: u16, ep_type: EndpointType, double_buffered: bool)
    ensures
        ep_control_word(addr, ep_type, double_buffered) == addr + 0x2000_0000 + 0x0400_0000 * (
        match ep_type {
            EndpointType::Control => 0int,
            EndpointType::Isochronous => 1,
            EndpointType::Bulk => 2,
            EndpointType::Interrupt => 3,
        }) + if_on(double_buffered, 0x4000_0000),
{
    assert(forall|t: u32, d: u32|
        t < 4 && d < 2 ==> #[trigger] ((addr as u32) | 0x2000_0000u32 | (t << 26) | (d << 30))
            == addr + 0x2000_0000u32 + 0x0400_0000u32 * t + 0x4000_0000u32 * d) by (bit_vector);
    assert(0u32 << 26 == 0 && 1u32 << 26 == 0x0400_0000u32 && 2u32 << 26 == 0x0800_0000u32 && 3u32
        << 26 == 0x0c00_0000u32 && 0u32 << 30 == 0 && 1u32 << 30 == 0x4000_0000u32) by (bit_vector);
    let t: u32 = match ep_type {
        EndpointType::Control => 0,
        EndpointType::Isochronous => 1,
        EndpointType::Bulk => 2,
        EndpointType::Interrupt => 3,
    };
    let d: u32 = if double_buffered {
        1
    } else {
        0
    };
    assert(((addr as u32) | 0x2000_0000u32 | (t << 26) | (d << 30)) == addr + 0x2000_0000u32
        + 0x0400_0000u32 * t + 0x4000_0000u32 * d);
}

/// An endpoint address is the index, plus 128 for an IN endpoint; its parts are read accordingly.
pub proof fn law_address_byte(index: usize, dir: Direction, raw: u8)
    requires
        index < 128,
    ensures
        address_byte(index, dir) == index + if_on(dir is In, 128),
        (EndpointAddress { raw }).index_part() == raw % 128,
        (EndpointAddress { raw }).direction_part() is In <==> raw >= 128,
{
    let low = index as u8;
    assert(low | 0x00u8 == low && low | 0x80u8 == low + 128) by (bit_vector)
        requires
            low < 128,
    ;
    assert(raw & 0x7f == raw % 128 && (raw & 0x80 != 0) == (raw >= 128)) by (bit_vector);
}

/// The second buffer starts where the first one ends, and both have the same length.
pub proof fn law_buffer_bounds(buf: BufferState)
    ensures
        buf.start(BufIdx::Buf0) == buf.addr,
        buf.end(BufIdx::Buf0) == buf.addr + buf.len,
        buf.start(BufIdx::Buf1) == buf.addr + buf.len,
        buf.end(BufIdx::Buf1) == buf.addr + 2 * buf.len,
        buf.limit() == buf.addr + buf.len + if_on(buf.double_buffered, buf.len as int),
{
}

/// Filling a buffer replaces the bytes that are filled, and no others.
pub proof fn law_overlay(mem: Seq<u8>, at: int, data: Seq<u8>)
    ensures
        replaced(overlaid(mem, at, data), mem, at, data),
{
}

} // verus!
