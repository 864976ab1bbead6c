//! ST25R3916 error type.

use vstd::prelude::*;

verus! {

/// Driver error parameterized over the underlying bus error `E`.
#[derive(Debug, Clone, Copy, PartialEq, Eq)]
pub enum Error<E> {
    /// Bus communication error.
    Bus(E),
    /// Operation or hardware timer timed out.
    Timeout,
    /// Crystal oscillator did not stabilize within the expected budget.
    OscillatorNotReady,
    /// Unexpected IC type byte read from the identity register.
    WrongChipType(u8),
    /// Bit collision detected during anticollision or reception.
    Collision,
    /// FIFO underflow or incomplete frame read.
    FifoUnderflow,
    /// Invalid parameter or configuration values.
    InvalidParameter,
    /// CRC check failure on a received frame.
    CrcError,
}

impl<E> From<E> for Error<E> {
    fn from(err: E) -> (r: Self) {
        Error::Bus(err)
    }
}

impl<E> vstd::std_specs::convert::FromSpecImpl<E> for Error<E> {
    open spec fn obeys_from_spec() -> bool {
        true
    }

    open spec fn from_spec(v: E) -> Self {
        Error::Bus(v)
    }
}

} // verus!
