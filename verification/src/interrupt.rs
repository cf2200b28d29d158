//! The interrupt handler.
use core::marker::PhantomData;
use crate::driver::EP_COUNT;
use crate::instance::Instance;
use crate::ops::{Next, Op, OpList, Request, WakerId};
use crate::regs::{
    any_set, ep_in, ep_in_bit, ep_out, ep_out_bit, is_set, Reg, INT_BUFF_STATUS, INT_BUS_RESET,
    INT_DEV_RESUME_FROM_HOST, INT_DEV_SUSPEND, INT_SETUP_REQ,
};
use vstd::prelude::*;

verus! {

/// How far the handler has come.
#[derive(Clone, Copy, Debug, PartialEq, Eq, Structural)]
pub enum IrqState {
    /// Nothing was done yet.
    Begin,
    /// The word of `INTS` is due.
    Ints,
    /// The word of `BUFF_STATUS` is due.
    Buffers,
}

/// An interrupt that is pending is masked, so that it does not fire again, and its task is woken;
/// one that is not pending asks for nothing.
pub open spec fn mask_and_wake(ints: u32, flag: u32, waker: WakerId) -> Seq<Op> {
    if any_set(ints, flag) {
        seq![Op::ClearBits { reg: Reg::Inte, value: flag }, Op::Wake(waker)]
    } else {
        Seq::empty()
    }
}

/// The wake-ups for the interrupts of the bus and of the SETUP packet.
pub open spec fn event_ops(ints: u32) -> Seq<Op> {
    mask_and_wake(ints, INT_BUS_RESET, WakerId::Bus) + mask_and_wake(
        ints,
        INT_DEV_RESUME_FROM_HOST,
        WakerId::Bus,
    ) + mask_and_wake(ints, INT_DEV_SUSPEND, WakerId::Bus) + mask_and_wake(
        ints,
        INT_SETUP_REQ,
        WakerId::Out(0),
    )
}

/// The wake-ups for the endpoint `i`: IN before OUT, each where its bit is set.
pub open spec fn endpoint_wakes(status: u32, i: int) -> Seq<Op> {
    (if ep_in_bit(status, i) {
        seq![Op::Wake(WakerId::In(i as usize))]
    } else {
        Seq::empty()
    }) + (if ep_out_bit(status, i) {
        seq![Op::Wake(WakerId::Out(i as usize))]
    } else {
        Seq::empty()
    })
}

/// The wake-ups for the endpoints below `n`, in their order.
pub open spec fn buffer_wakes(status: u32, n: int) -> Seq<Op>
    decreases n,
{
    if n <= 0 {
        Seq::empty()
    } else {
        buffer_wakes(status, n - 1) + endpoint_wakes(status, n - 1)
    }
}

/// What the handler does with a word.
pub open spec fn irq_next(st: IrqState, input: u32) -> Next<IrqState, ()> {
    match st {
        IrqState::Begin => Next {
            ops: Seq::empty(),
            request: Request::Read(Reg::Ints),
            state: IrqState::Ints,
        },
        IrqState::Ints => if any_set(input, INT_BUFF_STATUS) {
            Next {
                ops: event_ops(input),
                request: Request::Read(Reg::BuffStatus),
                state: IrqState::Buffers,
            }
        } else {
            Next { ops: event_ops(input), request: Request::Ready(()), state: IrqState::Begin }
        },
        IrqState::Buffers => Next {
            ops: seq![Op::Write { reg: Reg::BuffStatus, value: input }] + buffer_wakes(
                input,
                EP_COUNT as int,
            ),
            request: Request::Ready(()),
            state: IrqState::Begin,
        },
    }
}

proof fn lemma_buffer_wakes_len(status: u32, n: int)
    requires
        0 <= n,
    ensures
        buffer_wakes(status, n).len() <= 2 * n,
    decreases n,
{
    if n > 0 {
        lemma_buffer_wakes_len(status, n - 1);
    }
}

/// USB interrupt handler.
pub struct InterruptHandler<T: Instance> {
    _uart: PhantomData<T>,
}

impl<T: Instance> InterruptHandler<T> {
    /// A step of the handler, which starts at [`IrqState::Begin`] each time the interrupt fires.
    pub fn on_interrupt(st: &mut IrqState, input: u32, ops: &mut OpList) -> (r: Request<()>)
        requires
            old(ops).has_room(33),
        ensures
            final(ops).wf(),
            r.valid(),
            final(ops)@ == old(ops)@ + irq_next(*old(st), input).ops,
            r == irq_next(*old(st), input).request,
            *final(st) == irq_next(*old(st), input).state,
    {
        match *st {
            IrqState::Begin => {
                *st = IrqState::Ints;
                assert(ops@ =~= old(ops)@ + Seq::empty());
                Request::Read(Reg::Ints)
            },
            IrqState::Ints => {
                let ints: u32 = input;
                Self::acknowledge(ops, ints, INT_BUS_RESET, WakerId::Bus);
                Self::acknowledge(ops, ints, INT_DEV_RESUME_FROM_HOST, WakerId::Bus);
                Self::acknowledge(ops, ints, INT_DEV_SUSPEND, WakerId::Bus);
                Self::acknowledge(ops, ints, INT_SETUP_REQ, WakerId::Out(0));
                assert(ops@ =~= old(ops)@ + event_ops(ints));
                if is_set(ints, INT_BUFF_STATUS) {
                    *st = IrqState::Buffers;
                    Request::Read(Reg::BuffStatus)
                } else {
                    *st = IrqState::Begin;
                    Request::Ready(())
                }
            },
            IrqState::Buffers => {
                let s: u32 = input;
                ops.push(Op::Write { reg: Reg::BuffStatus, value: s });
                let ghost head = ops@;
                let mut i: usize = 0;
                assert(ops@ =~= head + buffer_wakes(s, 0));
                while i < EP_COUNT
                    invariant
                        i <= EP_COUNT,
                        ops.wf(),
                        head.len() + 32 <= crate::ops::OP_CAPACITY,
                        ops@ == head + buffer_wakes(s, i as int),
                    decreases EP_COUNT - i,
                {
                    proof {
                        lemma_buffer_wakes_len(s, i as int);
                    }
                    if ep_in(s, i) {
                        ops.push(Op::Wake(WakerId::In(i)));
                    }
                    if ep_out(s, i) {
                        ops.push(Op::Wake(WakerId::Out(i)));
                    }
                    assert(ops@ =~= head + (buffer_wakes(s, i as int) + endpoint_wakes(
                        s,
                        i as int,
                    )));
                    i = i + 1;
                }
                assert(ops@ =~= old(ops)@ + irq_next(IrqState::Buffers, s).ops);
                *st = IrqState::Begin;
                Request::Ready(())
            },
        }
    }

    fn acknowledge(ops: &mut OpList, ints: u32, flag: u32, waker: WakerId)
        requires
            old(ops).has_room(2),
            waker.valid(),
        ensures
            final(ops).wf(),
            final(ops)@ == old(ops)@ + mask_and_wake(ints, flag, waker),
    {
        if is_set(ints, flag) {
            ops.push(Op::ClearBits { reg: Reg::Inte, value: flag });
            ops.push(Op::Wake(waker));
        }
        assert(ops@ =~= old(ops)@ + mask_and_wake(ints, flag, waker));
    }
}

} // verus!
