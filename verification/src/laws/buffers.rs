//! What holds of endpoint buffers and of the words that hand them over.
use crate::buffer::{
    available_at, blank, config_at, half_offset, half_word, in_double_words,
    lemma_control_word_fields, length_at, out_double_words, overlaid, paired_word, single_word,
    BufIdx, BufferState, DoubleBufConfig, EP_MEMORY_SIZE,
};
use crate::control::{EP0_BUFFER, EP0_LEN};
use crate::endpoint::{chosen_buffer, some_buffer_ready, EndpointState};
use crate::types::Direction;
use vstd::prelude::*;

verus! {

/// The available bit of a buffer.
pub open spec fn available_bit(b: BufIdx) -> u32 {
    match b {
        BufIdx::Buf0 => 0x0000_0400u32,
        BufIdx::Buf1 => 0x0400_0000u32,
    }
}

/// The other buffer of the other buffer is the buffer itself, and the two are numbered 0 and 1.
pub proof fn law_other_buffer(b: BufIdx)
    ensures
        b.twin().twin() == b,
        b.twin() != b,
        b.number() + b.twin().number() == 1,
        b.number() == (if b is Buf0 {
            0int
        } else {
            1
        }),
{
}

/// Selecting puts the new configuration at the place of the buffer and leaves the current one at
/// that of the other.
pub proof fn law_select(b: BufIdx, new_val: DoubleBufConfig, current: DoubleBufConfig)
    ensures
        DoubleBufConfig::placed(b, new_val, current) == (if b.number() == 0 {
            (new_val, current)
        } else {
            (current, new_val)
        }),
        DoubleBufConfig::placed(b, new_val, current) == DoubleBufConfig::placed(
            b.twin(),
            current,
            new_val,
        ),
{
}

proof fn lemma_arm_bits(p0: bool, l0: u16, f0: bool, other: u32)
    by (bit_vector)
    ensures
        half_word(p0, l0, true, f0) | (other << 16) == (half_word(p0, l0, false, f0) | (other
            << 16)) | 0x0000_0400u32,
        other | (half_word(p0, l0, true, f0) << 16) == (other | (half_word(p0, l0, false, f0)
            << 16)) | 0x0400_0000u32,
{
}

/// A word in which the controller gets a buffer is the word in which it does not, with the
/// available bit of that buffer added.
pub proof fn law_arming_adds_one_bit(
    b: BufIdx,
    cfg: DoubleBufConfig,
    other: DoubleBufConfig,
)
    ensures
        paired_word(b, cfg.with_available(true), other) == paired_word(
            b,
            cfg.with_available(false),
            other,
        ) | available_bit(b),
        !available_at(paired_word(b, cfg.with_available(false), other), b),
        available_at(paired_word(b, cfg.with_available(true), other), b),
{
    lemma_arm_bits(
        cfg.pid,
        cfg.length,
        cfg.full,
        half_word(other.pid, other.length, other.available, other.full),
    );
    let off = DoubleBufConfig::placed(b, cfg.with_available(false), other);
    let on = DoubleBufConfig::placed(b, cfg.with_available(true), other);
    lemma_control_word_fields(off.0, off.1);
    lemma_control_word_fields(on.0, on.1);
}

/// Handing buffer `b` of a double-buffered OUT endpoint to the controller: the first word has all
/// but the available bit of the buffer, the second adds just that bit, and in both the other
/// buffer keeps its PID, its length and its available bit.
pub proof fn law_out_handoff(b: BufIdx, pid: bool, length: u16, current: u32)
    ensures
        ({
            let words = out_double_words(b, pid, length, true, current);
            &&& words.1 == words.0 | available_bit(b)
            &&& !available_at(words.0, b)
            &&& config_at(words.1, b) == (DoubleBufConfig {
                pid,
                length: length & 0x3ff,
                available: true,
                full: false,
            })
            &&& config_at(words.0, b.twin()) == (DoubleBufConfig {
                full: false,
                ..config_at(current, b.twin())
            })
            &&& config_at(words.1, b.twin()) == config_at(words.0, b.twin())
        }),
{
    let new_cfg = DoubleBufConfig { pid, length, available: false, full: false };
    let cur_cfg = DoubleBufConfig { full: false, ..config_at(current, b.twin()) };
    law_arming_adds_one_bit(b, new_cfg, cur_cfg);
    assert(new_cfg.with_available(false) == new_cfg);
    lemma_paired_fields(b, new_cfg, cur_cfg);
    lemma_paired_fields(b, new_cfg.with_available(true), cur_cfg);
    lemma_length_mask(current, b.twin());
}

/// Handing buffer `b` of a double-buffered IN endpoint to the controller: the first word has all
/// but the available bit of the buffer, the second adds just that bit, and in both the other
/// buffer stays as it is.
pub proof fn law_in_handoff(b: BufIdx, pid: bool, length: u16, current: u32)
    ensures
        ({
            let words = in_double_words(b, pid, length, true, true, current);
            &&& words.1 == words.0 | available_bit(b)
            &&& !available_at(words.0, b)
            &&& config_at(words.1, b) == (DoubleBufConfig {
                pid,
                length: length & 0x3ff,
                available: true,
                full: true,
            })
            &&& config_at(words.0, b.twin()) == config_at(current, b.twin())
            &&& config_at(words.1, b.twin()) == config_at(current, b.twin())
        }),
{
    let new_cfg = DoubleBufConfig { pid, length, available: false, full: true };
    let cur_cfg = config_at(current, b.twin());
    law_arming_adds_one_bit(b, new_cfg, cur_cfg);
    assert(new_cfg.with_available(false) == new_cfg);
    lemma_paired_fields(b, new_cfg, cur_cfg);
    lemma_paired_fields(b, new_cfg.with_available(true), cur_cfg);
    lemma_length_mask(current, b.twin());
}

/// Handing over the buffer of an endpoint with one buffer: the second word adds just the available
/// bit, and neither word says anything of a second buffer.
pub proof fn law_single_handoff(b0: DoubleBufConfig)
    requires
        !b0.available,
    ensures
        single_word(b0.with_available(true)) == single_word(b0) | available_bit(BufIdx::Buf0),
        !available_at(single_word(b0), BufIdx::Buf0),
        config_at(single_word(b0.with_available(true)), BufIdx::Buf0) == (DoubleBufConfig {
            length: b0.length & 0x3ff,
            available: true,
            ..b0
        }),
        config_at(single_word(b0), BufIdx::Buf1) == blank(),
        config_at(single_word(b0.with_available(true)), BufIdx::Buf1) == blank(),
{
    law_arming_adds_one_bit(BufIdx::Buf0, b0, blank());
    assert(b0.with_available(false) == b0);
    lemma_control_word_fields(b0, blank());
    lemma_control_word_fields(b0.with_available(true), blank());
    assert(0u16 & 0x3ff == 0) by (bit_vector);
}

/// The fields of a word for two buffers.
pub proof fn lemma_paired_fields(b: BufIdx, new_val: DoubleBufConfig, current: DoubleBufConfig)
    ensures
        config_at(paired_word(b, new_val, current), b) == (DoubleBufConfig {
            length: new_val.length & 0x3ff,
            ..new_val
        }),
        config_at(paired_word(b, new_val, current), b.twin()) == (DoubleBufConfig {
            length: current.length & 0x3ff,
            ..current
        }),
{
    let pair = DoubleBufConfig::placed(b, new_val, current);
    lemma_control_word_fields(pair.0, pair.1);
}

/// A length field has no more than its ten bits.
pub proof fn lemma_length_mask(word: u32, b: BufIdx)
    ensures
        length_at(word, b) & 0x3ff == length_at(word, b),
{
    let h = word >> half_offset(b);
    assert(((h & 0x3ff) as u16) & 0x3ff == ((h & 0x3ff) as u16)) by (bit_vector);
}

/// A length below 1024 survives the ten bits of its field.
pub proof fn lemma_short_length(length: u16)
    requires
        length <= 1023,
    ensures
        length & 0x3ff == length,
{
    assert(length & 0x3ff == length) by (bit_vector)
        requires
            length <= 1023,
    ;
}

/// What was written into a buffer is what is read from it.
pub proof fn law_write_then_read(buf: BufferState, idx: BufIdx, mem: Seq<u8>, data: Seq<u8>)
    requires
        0 <= buf.start(idx),
        buf.start(idx) + data.len() <= mem.len(),
    ensures
        overlaid(mem, buf.start(idx), data).subrange(
            buf.start(idx),
            buf.start(idx) + data.len(),
        ) == data,
{
    assert(overlaid(mem, buf.start(idx), data).subrange(
        buf.start(idx),
        buf.start(idx) + data.len(),
    ) =~= data);
}

/// Writing to a buffer changes nothing outside of the written bytes.
pub proof fn law_write_elsewhere(mem: Seq<u8>, at: int, data: Seq<u8>, from: int, to: int)
    requires
        0 <= from <= to <= mem.len(),
        to <= at || at + data.len() <= from,
    ensures
        overlaid(mem, at, data).subrange(from, to) == mem.subrange(from, to),
        overlaid(mem, at, data).len() == mem.len(),
{
    assert(overlaid(mem, at, data).subrange(from, to) =~= mem.subrange(from, to));
}

/// Filling one buffer of an endpoint leaves the other one alone.
pub proof fn law_buffers_apart(
    ep: EndpointState,
    dir: Direction,
    b: BufIdx,
    mem: Seq<u8>,
    data: Seq<u8>,
)
    requires
        ep.wf(dir),
        ep.buf.double_buffered,
        mem.len() == EP_MEMORY_SIZE,
        data.len() <= ep.buf.len,
    ensures
        overlaid(mem, ep.buf.start(b), data).subrange(
            ep.buf.start(b.twin()),
            ep.buf.end(b.twin()),
        ) == mem.subrange(ep.buf.start(b.twin()), ep.buf.end(b.twin())),
{
    law_write_elsewhere(
        mem,
        ep.buf.start(b),
        data,
        ep.buf.start(b.twin()),
        ep.buf.end(b.twin()),
    );
}

/// Endpoints and the control pipe do not share memory: filling a buffer of an endpoint leaves the
/// control registers, the SETUP packet and the buffer of endpoint 0 alone, and filling the buffer
/// of endpoint 0 leaves the registers, the SETUP packet and the buffers of all other endpoints
/// alone.
pub proof fn law_control_area_apart(
    ep: EndpointState,
    dir: Direction,
    b: BufIdx,
    mem: Seq<u8>,
    data: Seq<u8>,
)
    requires
        ep.wf(dir),
        b is Buf1 ==> ep.buf.double_buffered,
        mem.len() == EP_MEMORY_SIZE,
    ensures
        data.len() <= ep.buf.len ==> overlaid(mem, ep.buf.start(b), data).take(
            EP0_BUFFER + EP0_LEN,
        ) == mem.take(EP0_BUFFER + EP0_LEN),
        data.len() <= EP0_LEN ==> overlaid(mem, EP0_BUFFER as int, data).take(EP0_BUFFER as int)
            == mem.take(EP0_BUFFER as int),
        data.len() <= EP0_LEN ==> overlaid(mem, EP0_BUFFER as int, data).subrange(
            ep.buf.start(b),
            ep.buf.end(b),
        ) == mem.subrange(ep.buf.start(b), ep.buf.end(b)),
{
    if data.len() <= ep.buf.len {
        assert(overlaid(mem, ep.buf.start(b), data).take(EP0_BUFFER + EP0_LEN) =~= mem.take(
            EP0_BUFFER + EP0_LEN,
        ));
    }
    if data.len() <= EP0_LEN {
        assert(overlaid(mem, EP0_BUFFER as int, data).take(EP0_BUFFER as int) =~= mem.take(
            EP0_BUFFER as int,
        ));
        law_write_elsewhere(mem, EP0_BUFFER as int, data, ep.buf.start(b), ep.buf.end(b));
    }
}

/// Where some buffer is ready, the one that is served is ready, and it is the preferred one if
/// that is ready.
pub proof fn law_served_buffer_is_ready(val: u32, preferred: BufIdx)
    requires
        some_buffer_ready(val),
    ensures
        !available_at(val, chosen_buffer(val, preferred)),
        !available_at(val, preferred) ==> chosen_buffer(val, preferred) == preferred,
{
}

} // verus!
