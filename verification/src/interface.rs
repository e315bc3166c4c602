use vstd::prelude::*;

verus! {

/// Logical level driven onto a digital output pin.
#[derive(Clone, Copy, PartialEq, Eq, Structural, Debug)]
pub enum PinLevel {
    Low,
    High,
}

/// Digital output pin capability: drive the line low or high, synchronously,
/// with a pin-specific error type.
///
/// The ghost history `levels()` records, oldest first, every level that was
/// successfully driven onto the pin. A failed call leaves the history as it
/// was, so contracts over it say exactly which signal edges an operation
/// produced.
pub trait OutPin: Sized {
    /// The pin-specific error type.
    type Error;

    /// Levels successfully driven onto the pin so far, oldest first.
    spec fn levels(&self) -> Seq<PinLevel>;

    /// Drive the pin low.
    fn set_low(&mut self) -> (r: Result<(), Self::Error>)
        ensures
            r is Ok ==> final(self).levels() == old(self).levels().push(PinLevel::Low),
            r is Err ==> final(self).levels() == old(self).levels(),
    ;

    /// Drive the pin high.
    fn set_high(&mut self) -> (r: Result<(), Self::Error>)
        ensures
            r is Ok ==> final(self).levels() == old(self).levels().push(PinLevel::High),
            r is Err ==> final(self).levels() == old(self).levels(),
    ;
}

/// Serial bus capability: one operation, "write these bytes", synchronous,
/// returning success or a transport-specific error. No read path is used.
///
/// The ghost history `writes()` records, oldest first, the byte sequence of
/// every successful write. A failed write leaves the history as it was.
pub trait Bus: Sized {
    /// The transport-specific error type.
    type Error;

    /// Byte sequences successfully written on the bus so far, oldest first.
    spec fn writes(&self) -> Seq<Seq<u8>>;

    /// Write the given bytes as one bus transaction.
    fn write(&mut self, data: &[u8]) -> (r: Result<(), Self::Error>)
        ensures
            r is Ok ==> final(self).writes() == old(self).writes().push(data@),
            r is Err ==> final(self).writes() == old(self).writes(),
    ;
}

/// Blocking delay capability: block the calling context for a number of
/// milliseconds.
///
/// The ghost history `delays()` records every requested pause, oldest first,
/// so that contracts can state the exact settle times an operation took.
pub trait Delay: Sized {
    /// Millisecond pauses requested so far, oldest first.
    spec fn delays(&self) -> Seq<u16>;

    /// Block for `ms` milliseconds.
    fn delay_ms(&mut self, ms: u16)
        ensures
            final(self).delays() == old(self).delays().push(ms),
    ;
}

} // verus!
