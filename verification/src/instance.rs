//! Type-level names: the peripheral that a driver works for and the direction of an endpoint.
use crate::types::Direction;
use vstd::prelude::*;

verus! {

/// USB peripheral instance.
pub trait Instance: 'static {
    /// Interrupt for this peripheral.
    type Interrupt;
}

/// Direction of an endpoint as a type.
pub trait Dir {
    /// The direction that the type stands for.
    spec fn direction() -> Direction;

    /// The direction that the type stands for.
    fn dir() -> (d: Direction)
        ensures
            d == Self::direction(),
    ;
}

/// Type for In direction.
pub enum In {
    Marker,
}

impl Dir for In {
    open spec fn direction() -> Direction {
        Direction::In
    }

    fn dir() -> (d: Direction) {
        Direction::In
    }
}

/// Type for Out direction.
pub enum Out {
    Marker,
}

impl Dir for Out {
    open spec fn direction() -> Direction {
        Direction::Out
    }

    fn dir() -> (d: Direction) {
        Direction::Out
    }
}

} // verus!
