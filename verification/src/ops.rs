//! What the driver wants done: register accesses, delays and wake-ups, in the order in which they
//! are due.
use crate::regs::{merged, reg_at, Place, Reg};
use vstd::prelude::*;

verus! {

/// One of the tasks that can sleep until the controller has news.
#[derive(Clone, Copy, Debug, PartialEq, Eq, Structural)]
pub enum WakerId {
    /// The task that polls the bus.
    Bus,
    /// The task that works with endpoint `n` IN.
    In(usize),
    /// The task that works with endpoint `n` OUT.
    Out(usize),
}

impl WakerId {
    /// The waker exists: there are sixteen endpoints in each direction.
    pub open spec fn valid(self) -> bool {
        match self {
            WakerId::Bus => true,
            WakerId::In(n) => n < 16,
            WakerId::Out(n) => n < 16,
        }
    }
}

/// Words of the controller's register block that are cleared before the controller is set up.
pub const REG_WORDS: usize = 39;

/// Words at the start of the dual-port memory that are cleared before the controller is set up:
/// the SETUP packet and all control and buffer control registers.
pub const DPRAM_CONTROL_WORDS: usize = 64;

/// Processor cycles between the two writes of a buffer control word.
pub const HANDOFF_DELAY: u32 = 12;

/// One thing to do.
#[derive(Clone, Copy, Debug, PartialEq, Eq, Structural)]
pub enum Op {
    /// Drop a pending interrupt of the controller.
    UnpendInterrupt,
    /// Let the controller interrupt the processor.
    EnableInterrupt,
    /// Clear word `n` of the register block.
    ClearRegWord(usize),
    /// Clear word `n` of the dual-port memory.
    ClearDpramWord(usize),
    /// Store a word in a register.
    Write { reg: Reg, value: u32 },
    /// Set the bits of `value` in a register, by its bit-set alias.
    SetBits { reg: Reg, value: u32 },
    /// Clear the bits of `value` in a register, by its bit-clear alias.
    ClearBits { reg: Reg, value: u32 },
    /// Replace the bits of `mask` in a register by those of `value`.
    Modify { reg: Reg, mask: u32, value: u32 },
    /// Let the given number of processor cycles pass.
    Delay(u32),
    /// Wake the task that sleeps on a waker.
    Wake(WakerId),
    /// Let a waker remember the current task.
    Register(WakerId),
}

impl Op {
    /// The operation speaks of a register, a word or a waker that exists.
    pub open spec fn valid(self) -> bool {
        match self {
            Op::ClearRegWord(n) => n < REG_WORDS,
            Op::ClearDpramWord(n) => n < DPRAM_CONTROL_WORDS,
            Op::Write { reg, .. } => reg.valid(),
            Op::SetBits { reg, .. } => reg.valid(),
            Op::ClearBits { reg, .. } => reg.valid(),
            Op::Modify { reg, .. } => reg.valid(),
            Op::Wake(w) => w.valid(),
            Op::Register(w) => w.valid(),
            _ => true,
        }
    }

    /// What the operation leaves in the registers, for registers that hold what is stored in them
    /// until the next access of the driver.
    pub open spec fn effect(self, regs: Map<Reg, u32>) -> Map<Reg, u32> {
        match self {
            Op::ClearRegWord(n) => cleared(regs, Place::Controller(n)),
            Op::ClearDpramWord(n) => cleared(regs, Place::Dpram(n)),
            Op::Write { reg, value } => regs.insert(reg, value),
            Op::SetBits { reg, value } => regs.insert(reg, regs[reg] | value),
            Op::ClearBits { reg, value } => regs.insert(reg, regs[reg] & !value),
            Op::Modify { reg, mask, value } => regs.insert(reg, merged(regs[reg], mask, value)),
            _ => regs,
        }
    }
}

/// The registers after the word at a place was cleared.
pub open spec fn cleared(regs: Map<Reg, u32>, place: Place) -> Map<Reg, u32> {
    match reg_at(place) {
        Some(reg) => regs.insert(reg, 0),
        None => regs,
    }
}

/// What a sequence of operations leaves in the registers.
pub open spec fn run(ops: Seq<Op>, regs: Map<Reg, u32>) -> Map<Reg, u32>
    decreases ops.len(),
{
    if ops.len() == 0 {
        regs
    } else {
        ops.last().effect(run(ops.drop_last(), regs))
    }
}

/// The buffer control word is stored twice with a pause in between, so that the controller finds
/// everything else in place when it sees the available bit.
pub open spec fn handoff(reg: Reg, first: u32, second: u32) -> Seq<Op> {
    seq![
        Op::Write { reg, value: first },
        Op::Delay(HANDOFF_DELAY),
        Op::Write { reg, value: second },
    ]
}

/// Longest list of operations.
pub const OP_CAPACITY: usize = 128;

/// A list of operations, oldest first, that needs no heap.
pub struct OpList {
    ops: [Op; OP_CAPACITY],
    len: usize,
}

impl OpList {
    pub closed spec fn view(&self) -> Seq<Op> {
        self.ops@.take(self.len as int)
    }

    /// Every operation in the list can be carried out.
    pub closed spec fn wf(&self) -> bool {
        &&& self.len <= OP_CAPACITY
        &&& forall|i: int| 0 <= i < self.len ==> (#[trigger] self.ops@[i]).valid()
    }

    /// The list can take `n` more operations.
    pub open spec fn has_room(&self, n: int) -> bool {
        self.wf() && self@.len() + n <= OP_CAPACITY
    }

    /// An empty list.
    pub fn new() -> (r: Self)
        ensures
            r.wf(),
            r@ == Seq::<Op>::empty(),
    {
        let r = OpList { ops: [Op::UnpendInterrupt; OP_CAPACITY], len: 0 };
        assert(r@ =~= Seq::<Op>::empty());
        r
    }

    /// Number of operations.
    pub fn len(&self) -> (n: usize)
        requires
            self.wf(),
        ensures
            n == self@.len(),
    {
        self.len
    }

    /// The operation at `i`, counted from the oldest.
    pub fn get(&self, i: usize) -> (op: Op)
        requires
            self.wf(),
            i < self@.len(),
        ensures
            op == self@[i as int],
            op.valid(),
    {
        self.ops[i]
    }

    /// Appends an operation.
    pub fn push(&mut self, op: Op)
        requires
            old(self).has_room(1),
            op.valid(),
        ensures
            final(self).wf(),
            final(self)@ == old(self)@.push(op),
    {
        let n: usize = self.len;
        self.ops[n] = op;
        self.len = n + 1;
        assert(self@ =~= old(self)@.push(op));
    }
}

/// Appends the two writes of a buffer control word, see [`handoff`].
pub fn push_handoff(ops: &mut OpList, reg: Reg, first: u32, second: u32)
    requires
        old(ops).has_room(3),
        reg.valid(),
    ensures
        final(ops).wf(),
        final(ops)@ == old(ops)@ + handoff(reg, first, second),
{
    ops.push(Op::Write { reg, value: first });
    ops.push(Op::Delay(HANDOFF_DELAY));
    ops.push(Op::Write { reg, value: second });
    assert(ops@ =~= old(ops)@ + handoff(reg, first, second));
}

/// What an operation of the driver needs before it can go on.
#[derive(Debug, PartialEq, Eq)]
pub enum Request<R> {
    /// Carry out the listed operations, read the register and hand its word to the next step.
    Read(Reg),
    /// Carry out the listed operations and sleep; take the next step when the task is woken.
    Pending,
    /// Carry out the listed operations; the driver is done, with this result.
    Ready(R),
}

impl<R> Request<R> {
    /// The register that is asked for exists.
    pub open spec fn valid(self) -> bool {
        self matches Request::Read(reg) ==> reg.valid()
    }
}

/// One step of an operation: the accesses that it appends, what it asks for, and where it goes on.
pub struct Next<S, R> {
    pub ops: Seq<Op>,
    pub request: Request<R>,
    pub state: S,
}

} // verus!
