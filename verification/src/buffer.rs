//! Endpoint buffers in the dual-port memory and the words that hand them to the controller.
use core::marker::PhantomData;
use crate::instance::Instance;
use crate::ops::{handoff, push_handoff, OpList};
use crate::regs::Reg;
use vstd::prelude::*;

verus! {

/// Size of the dual-port memory, in bytes.
pub const EP_MEMORY_SIZE: usize = 4096;

/// Which buffer of a double-buffered endpoint.
#[derive(Clone, Copy, Debug, PartialEq, Eq, Structural)]
pub enum BufIdx {
    Buf0,
    Buf1,
}

impl BufIdx {
    /// Number of the buffer.
    pub open spec fn number(self) -> usize {
        match self {
            BufIdx::Buf0 => 0,
            BufIdx::Buf1 => 1,
        }
    }

    /// The buffer that is not this one.
    pub open spec fn twin(self) -> BufIdx {
        match self {
            BufIdx::Buf0 => BufIdx::Buf1,
            BufIdx::Buf1 => BufIdx::Buf0,
        }
    }

    /// The number of the buffer: 0 or 1.
    pub fn index(self) -> (r: usize)
        ensures
            r == self.number(),
    {
        match self {
            BufIdx::Buf0 => 0,
            BufIdx::Buf1 => 1,
        }
    }

    /// Get the other buffer index.
    pub fn other(self) -> (r: Self)
        ensures
            r == self.twin(),
    {
        match self {
            BufIdx::Buf0 => BufIdx::Buf1,
            BufIdx::Buf1 => BufIdx::Buf0,
        }
    }
}

/// What a buffer control word says of one of its two buffers.
#[derive(Clone, Copy, Debug, PartialEq, Eq, Structural)]
pub struct DoubleBufConfig {
    /// DATA1 where set, DATA0 where not.
    pub pid: bool,
    /// Bytes in the buffer, or room in it.
    pub length: u16,
    /// The buffer belongs to the controller.
    pub available: bool,
    /// The buffer holds data to send.
    pub full: bool,
}

/// A buffer of which the word says nothing.
pub open spec fn blank() -> DoubleBufConfig {
    DoubleBufConfig { pid: false, length: 0, available: false, full: false }
}

impl DoubleBufConfig {
    /// The same buffer, handed to the controller or not.
    pub open spec fn with_available(self, available: bool) -> Self {
        DoubleBufConfig { available, ..self }
    }

    /// The pair for buffers 0 and 1 in which buffer `buf_idx` gets the new configuration and the
    /// other one the current.
    pub open spec fn placed(buf_idx: BufIdx, new_val: Self, current: Self) -> (Self, Self) {
        match buf_idx {
            BufIdx::Buf0 => (new_val, current),
            BufIdx::Buf1 => (current, new_val),
        }
    }

    /// A buffer of which the word says nothing.
    pub fn empty() -> (r: Self)
        ensures
            r == blank(),
    {
        DoubleBufConfig { pid: false, length: 0, available: false, full: false }
    }

    /// Create config by selecting values based on buffer index.
    pub fn select(buf_idx: BufIdx, new_val: Self, current: Self) -> (r: (Self, Self))
        ensures
            r == Self::placed(buf_idx, new_val, current),
    {
        match buf_idx {
            BufIdx::Buf0 => (new_val, current),
            BufIdx::Buf1 => (current, new_val),
        }
    }
}

/// A bit at position `pos`, or nothing.
pub open spec fn flag_bit(set: bool, pos: u32) -> u32 {
    if set {
        1u32 << pos
    } else {
        0
    }
}

/// Sixteen bits of a buffer control word: ten bits of length, then available, PID and full; what
/// a length has above its ten bits is dropped.
pub open spec fn half_word(pid: bool, length: u16, available: bool, full: bool) -> u32 {
    ((length & 0x3ff) as u32) | flag_bit(available, 10) | flag_bit(pid, 13) | flag_bit(full, 15)
}

/// The buffer control word for the two buffers, with all other fields zero.
pub open spec fn control_word(b0: DoubleBufConfig, b1: DoubleBufConfig) -> u32 {
    half_word(b0.pid, b0.length, b0.available, b0.full) | (half_word(
        b1.pid,
        b1.length,
        b1.available,
        b1.full,
    ) << 16)
}

/// The buffer control word for an endpoint with one buffer.
pub open spec fn single_word(b0: DoubleBufConfig) -> u32 {
    control_word(b0, blank())
}

/// The buffer control word in which buffer `buf_idx` gets the new configuration and the other one
/// the current.
pub open spec fn paired_word(
    buf_idx: BufIdx,
    new_val: DoubleBufConfig,
    current: DoubleBufConfig,
) -> u32 {
    let pair = DoubleBufConfig::placed(buf_idx, new_val, current);
    control_word(pair.0, pair.1)
}

/// First bit of the half that describes a buffer.
pub open spec fn half_offset(b: BufIdx) -> u32 {
    match b {
        BufIdx::Buf0 => 0u32,
        BufIdx::Buf1 => 16u32,
    }
}

/// Length field of buffer `b`.
pub open spec fn length_at(word: u32, b: BufIdx) -> u16 {
    ((word >> half_offset(b)) & 0x3ff) as u16
}

/// Available bit of buffer `b`.
pub open spec fn available_at(word: u32, b: BufIdx) -> bool {
    ((word >> half_offset(b)) >> 10u32) & 1 == 1
}

/// PID bit of buffer `b`.
pub open spec fn pid_at(word: u32, b: BufIdx) -> bool {
    ((word >> half_offset(b)) >> 13u32) & 1 == 1
}

/// Full bit of buffer `b`.
pub open spec fn full_at(word: u32, b: BufIdx) -> bool {
    ((word >> half_offset(b)) >> 15u32) & 1 == 1
}

/// Stall bit, which holds for both buffers.
pub open spec fn stall_at(word: u32) -> bool {
    (word >> 11u32) & 1 == 1
}

/// All that a word says of buffer `b`.
pub open spec fn config_at(word: u32, b: BufIdx) -> DoubleBufConfig {
    DoubleBufConfig {
        pid: pid_at(word, b),
        length: length_at(word, b),
        available: available_at(word, b),
        full: full_at(word, b),
    }
}

/// What is put into a buffer control word is what the word says, up to the ten bits of a length.
pub proof fn lemma_control_word_fields(b0: DoubleBufConfig, b1: DoubleBufConfig)
    ensures
        config_at(control_word(b0, b1), BufIdx::Buf0) == (DoubleBufConfig {
            length: b0.length & 0x3ff,
            ..b0
        }),
        config_at(control_word(b0, b1), BufIdx::Buf1) == (DoubleBufConfig {
            length: b1.length & 0x3ff,
            ..b1
        }),
        !stall_at(control_word(b0, b1)),
{
    lemma_word_fields(
        b0.pid,
        b0.length,
        b0.available,
        b0.full,
        b1.pid,
        b1.length,
        b1.available,
        b1.full,
    );
}

proof fn lemma_word_fields(
    p0: bool,
    l0: u16,
    a0: bool,
    f0: bool,
    p1: bool,
    l1: u16,
    a1: bool,
    f1: bool,
)
    by (bit_vector)
    ensures
        ({
            let w = half_word(p0, l0, a0, f0) | (half_word(p1, l1, a1, f1) << 16);
            &&& ((w >> 0u32) & 0x3ff) as u16 == l0 & 0x3ff
            &&& (((w >> 0u32) >> 10u32) & 1 == 1) == a0
            &&& (((w >> 0u32) >> 13u32) & 1 == 1) == p0
            &&& (((w >> 0u32) >> 15u32) & 1 == 1) == f0
            &&& ((w >> 16u32) & 0x3ff) as u16 == l1 & 0x3ff
            &&& (((w >> 16u32) >> 10u32) & 1 == 1) == a1
            &&& (((w >> 16u32) >> 13u32) & 1 == 1) == p1
            &&& (((w >> 16u32) >> 15u32) & 1 == 1) == f1
            &&& (w >> 11u32) & 1 != 1
        }),
{
}

/// A length field is below 1024.
pub proof fn lemma_length_bound(word: u32, b: BufIdx)
    ensures
        length_at(word, b) <= 1023,
{
    let h = word >> half_offset(b);
    assert(((h & 0x3ff) as u16) <= 1023) by (bit_vector);
}

/// A buffer control word.
#[derive(Clone, Copy, Debug, PartialEq, Eq, Structural)]
pub struct EpBufferControl(pub u32);

impl EpBufferControl {
    fn offset(b: BufIdx) -> (r: u32)
        ensures
            r == half_offset(b),
    {
        if b.index() == 0 {
            0
        } else {
            16
        }
    }

    /// The word for the two buffers.
    pub fn new(b0: DoubleBufConfig, b1: DoubleBufConfig) -> (r: Self)
        ensures
            r.0 == control_word(b0, b1),
    {
        EpBufferControl(Self::half(b0) | (Self::half(b1) << 16))
    }

    fn half(b: DoubleBufConfig) -> (r: u32)
        ensures
            r == half_word(b.pid, b.length, b.available, b.full),
    {
        let mut r: u32 = (b.length & 0x3ff) as u32;
        if b.available {
            r = r | (1u32 << 10);
        }
        if b.pid {
            r = r | (1u32 << 13);
        }
        if b.full {
            r = r | (1u32 << 15);
        }
        assert(forall|w: u32| #[trigger] (w | 0) == w) by (bit_vector);
        r
    }

    /// Length of buffer `b`.
    pub fn length(&self, b: BufIdx) -> (r: u16)
        ensures
            r == length_at(self.0, b),
            r <= 1023,
    {
        proof {
            lemma_length_bound(self.0, b);
        }
        ((self.0 >> Self::offset(b)) & 0x3ff) as u16
    }

    /// Whether buffer `b` belongs to the controller.
    pub fn available(&self, b: BufIdx) -> (r: bool)
        ensures
            r == available_at(self.0, b),
    {
        ((self.0 >> Self::offset(b)) >> 10) & 1 == 1
    }

    /// PID of buffer `b`: DATA1 where set.
    pub fn pid(&self, b: BufIdx) -> (r: bool)
        ensures
            r == pid_at(self.0, b),
    {
        ((self.0 >> Self::offset(b)) >> 13) & 1 == 1
    }

    /// Whether buffer `b` holds data.
    pub fn full(&self, b: BufIdx) -> (r: bool)
        ensures
            r == full_at(self.0, b),
    {
        ((self.0 >> Self::offset(b)) >> 15) & 1 == 1
    }

    /// Whether the endpoint answers with a STALL.
    pub fn stall(&self) -> (r: bool)
        ensures
            r == stall_at(self.0),
    {
        (self.0 >> 11) & 1 == 1
    }
}

/// The two words that hand buffer `buf_idx` of an OUT endpoint to the controller for a packet of
/// up to `length` bytes, while the other buffer stays as `current` has it.
pub open spec fn out_double_words(
    buf_idx: BufIdx,
    pid: bool,
    length: u16,
    available: bool,
    current: u32,
) -> (u32, u32) {
    let new_cfg = DoubleBufConfig { pid, length, available: false, full: false };
    let cur_cfg = DoubleBufConfig { full: false, ..config_at(current, buf_idx.twin()) };
    (
        paired_word(buf_idx, new_cfg, cur_cfg),
        paired_word(buf_idx, new_cfg.with_available(available), cur_cfg),
    )
}

/// The two words that hand buffer `buf_idx` of an IN endpoint to the controller with a packet of
/// `length` bytes, while the other buffer stays as `current` has it.
pub open spec fn in_double_words(
    buf_idx: BufIdx,
    pid: bool,
    length: u16,
    full: bool,
    available: bool,
    current: u32,
) -> (u32, u32) {
    let new_cfg = DoubleBufConfig { pid, length, available: false, full };
    let cur_cfg = config_at(current, buf_idx.twin());
    (
        paired_word(buf_idx, new_cfg, cur_cfg),
        paired_word(buf_idx, new_cfg.with_available(available), cur_cfg),
    )
}

/// Write to OUT buffer control register for double-buffered mode.
///
/// Handles the required write-delay-write pattern: the first word goes out without the available
/// bit of the buffer.
pub fn write_out_buffer_control_double(
    ops: &mut OpList,
    index: usize,
    buf_idx: BufIdx,
    pid: bool,
    length: u16,
    available: bool,
    current: &EpBufferControl,
)
    requires
        old(ops).has_room(3),
        index < 16,
    ensures
        final(ops).wf(),
        ({
            let words = out_double_words(buf_idx, pid, length, available, current.0);
            final(ops)@ == old(ops)@ + handoff(Reg::EpOutBufferControl(index), words.0, words.1)
        }),
{
    let new_cfg = DoubleBufConfig { pid, length, available: false, full: false };
    let cur_cfg = DoubleBufConfig {
        pid: current.pid(buf_idx.other()),
        length: current.length(buf_idx.other()),
        available: current.available(buf_idx.other()),
        full: false,
    };
    let (buf0, buf1) = DoubleBufConfig::select(buf_idx, new_cfg, cur_cfg);
    let first = EpBufferControl::new(buf0, buf1);
    let armed = DoubleBufConfig { available, ..new_cfg };
    let (buf0, buf1) = DoubleBufConfig::select(buf_idx, armed, cur_cfg);
    let second = EpBufferControl::new(buf0, buf1);
    push_handoff(ops, Reg::EpOutBufferControl(index), first.0, second.0);
}

/// Write to IN buffer control register for double-buffered mode.
///
/// Handles the required write-delay-write pattern: the first word goes out without the available
/// bit of the buffer.
pub fn write_in_buffer_control_double(
    ops: &mut OpList,
    index: usize,
    buf_idx: BufIdx,
    pid: bool,
    length: u16,
    full: bool,
    available: bool,
    current: &EpBufferControl,
)
    requires
        old(ops).has_room(3),
        index < 16,
    ensures
        final(ops).wf(),
        ({
            let words = in_double_words(buf_idx, pid, length, full, available, current.0);
            final(ops)@ == old(ops)@ + handoff(Reg::EpInBufferControl(index), words.0, words.1)
        }),
{
    let new_cfg = DoubleBufConfig { pid, length, available: false, full };
    let cur_cfg = DoubleBufConfig {
        pid: current.pid(buf_idx.other()),
        length: current.length(buf_idx.other()),
        available: current.available(buf_idx.other()),
        full: current.full(buf_idx.other()),
    };
    let (buf0, buf1) = DoubleBufConfig::select(buf_idx, new_cfg, cur_cfg);
    let first = EpBufferControl::new(buf0, buf1);
    let armed = DoubleBufConfig { available, ..new_cfg };
    let (buf0, buf1) = DoubleBufConfig::select(buf_idx, armed, cur_cfg);
    let second = EpBufferControl::new(buf0, buf1);
    push_handoff(ops, Reg::EpInBufferControl(index), first.0, second.0);
}

/// Where the buffers of an endpoint lie.
pub struct BufferState {
    /// Address of buffer 0 in the dual-port memory.
    pub addr: u16,
    /// Length of each buffer.
    pub len: u16,
    /// There is a buffer 1, right after buffer 0.
    pub double_buffered: bool,
}

impl BufferState {
    /// Where buffer `idx` starts.
    pub open spec fn start(self, idx: BufIdx) -> int {
        match idx {
            BufIdx::Buf0 => self.addr as int,
            BufIdx::Buf1 => self.addr + self.len,
        }
    }

    /// Where buffer `idx` ends.
    pub open spec fn end(self, idx: BufIdx) -> int {
        self.start(idx) + self.len
    }

    /// Where the last of the buffers ends.
    pub open spec fn limit(self) -> int {
        if self.double_buffered {
            self.end(BufIdx::Buf1)
        } else {
            self.end(BufIdx::Buf0)
        }
    }
}

/// Memory with `data` laid over it from `at` on.
pub open spec fn overlaid(mem: Seq<u8>, at: int, data: Seq<u8>) -> Seq<u8> {
    Seq::new(
        mem.len(),
        |i: int|
            if at <= i < at + data.len() {
                data[i - at]
            } else {
                mem[i]
            },
    )
}

/// The buffer or the two buffers of an endpoint.
pub struct EndpointBuffer<T: Instance> {
    /// Base address of buffer 0 in DPRAM.
    addr: u16,
    /// Length of each buffer (both buffers have the same size).
    len: u16,
    /// Whether this endpoint uses double buffering.
    double_buffered: bool,
    _phantom: PhantomData<T>,
}

impl<T: Instance> EndpointBuffer<T> {
    pub closed spec fn view(&self) -> BufferState {
        BufferState { addr: self.addr, len: self.len, double_buffered: self.double_buffered }
    }

    /// One buffer.
    pub fn new(addr: u16, len: u16) -> (r: Self)
        ensures
            r@ == (BufferState { addr, len, double_buffered: false }),
    {
        EndpointBuffer { addr, len, double_buffered: false, _phantom: PhantomData }
    }

    /// Two buffers, one behind the other.
    pub fn new_double_buffered(addr: u16, len: u16) -> (r: Self)
        ensures
            r@ == (BufferState { addr, len, double_buffered: true }),
    {
        EndpointBuffer { addr, len, double_buffered: true, _phantom: PhantomData }
    }

    /// Whether there are two buffers.
    pub fn is_double_buffered(&self) -> (r: bool)
        ensures
            r == self@.double_buffered,
    {
        self.double_buffered
    }

    /// Length of each buffer.
    pub fn buf_len(&self) -> (r: u16)
        ensures
            r == self@.len,
    {
        self.len
    }

    /// Get the address of the specified buffer.
    pub fn buf_addr(&self, idx: BufIdx) -> (r: u16)
        requires
            self@.start(idx) <= u16::MAX,
        ensures
            r == self@.start(idx),
    {
        match idx {
            BufIdx::Buf0 => self.addr,
            // Buffer 1 is immediately after buffer 0
            BufIdx::Buf1 => self.addr + self.len,
        }
    }

    /// Fills `buf` from buffer 0, where `mem` is the dual-port memory.
    pub fn read(&mut self, mem: &[u8], buf: &mut [u8])
        requires
            old(buf)@.len() <= old(self)@.len,
            old(self)@.start(BufIdx::Buf0) + old(buf)@.len() <= mem@.len(),
        ensures
            final(self)@ == old(self)@,
            final(buf)@ == mem@.subrange(
                old(self)@.start(BufIdx::Buf0),
                old(self)@.start(BufIdx::Buf0) + old(buf)@.len(),
            ),
    {
        self.read_buf(BufIdx::Buf0, mem, buf);
    }

    /// Fills `buf` from the given buffer, where `mem` is the dual-port memory.
    pub fn read_buf(&mut self, idx: BufIdx, mem: &[u8], buf: &mut [u8])
        requires
            old(buf)@.len() <= old(self)@.len,
            old(self)@.start(idx) <= u16::MAX,
            old(self)@.start(idx) + old(buf)@.len() <= mem@.len(),
        ensures
            final(self)@ == old(self)@,
            final(buf)@ == mem@.subrange(
                old(self)@.start(idx),
                old(self)@.start(idx) + old(buf)@.len(),
            ),
    {
        let addr: usize = self.buf_addr(idx) as usize;
        let mem_len: usize = mem.len();
        let n: usize = buf.len();
        let mut i: usize = 0;
        while i < n
            invariant
                n == buf@.len(),
                i <= n,
                mem_len == mem@.len(),
                addr + n <= mem_len,
                forall|j: int| 0 <= j < i ==> buf@[j] == mem@[addr + j],
            decreases n - i,
        {
            buf[i] = mem[addr + i];
            i = i + 1;
        }
        assert(buf@ =~= mem@.subrange(addr as int, addr + n));
    }

    /// Copies `buf` into buffer 0, where `mem` is the dual-port memory.
    pub fn write(&mut self, mem: &mut [u8], buf: &[u8])
        requires
            buf@.len() <= old(self)@.len,
            old(self)@.start(BufIdx::Buf0) + buf@.len() <= old(mem)@.len(),
        ensures
            final(self)@ == old(self)@,
            final(mem)@ == overlaid(old(mem)@, old(self)@.start(BufIdx::Buf0), buf@),
    {
        self.write_buf(BufIdx::Buf0, mem, buf);
    }

    /// Copies `buf` into the given buffer, where `mem` is the dual-port memory.
    pub fn write_buf(&mut self, idx: BufIdx, mem: &mut [u8], buf: &[u8])
        requires
            buf@.len() <= old(self)@.len,
            old(self)@.start(idx) <= u16::MAX,
            old(self)@.start(idx) + buf@.len() <= old(mem)@.len(),
        ensures
            final(self)@ == old(self)@,
            final(mem)@ == overlaid(old(mem)@, old(self)@.start(idx), buf@),
    {
        let addr: usize = self.buf_addr(idx) as usize;
        let mem_len: usize = mem.len();
        let n: usize = buf.len();
        let mut i: usize = 0;
        while i < n
            invariant
                n == buf@.len(),
                i <= n,
                mem_len == mem@.len(),
                mem_len == old(mem)@.len(),
                addr + n <= mem_len,
                forall|j: int|
                    0 <= j < mem_len ==> mem@[j] == (if addr <= j < addr + i {
                        buf@[j - addr]
                    } else {
                        old(mem)@[j]
                    }),
            decreases n - i,
        {
            mem[addr + i] = buf[i];
            i = i + 1;
        }
        assert(mem@ =~= overlaid(old(mem)@, addr as int, buf@));
    }
}

} // verus!
