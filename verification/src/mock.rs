use vstd::prelude::*;

use crate::interface::Bus;
use crate::interface::Delay;
use crate::interface::OutPin;
use crate::interface::PinLevel;

verus! {

/// Error value returned by a [`MockPin`] configured to fail.
#[derive(Clone, Copy, PartialEq, Eq, Structural, Debug)]
pub struct PinFault;

/// Error value returned by a [`MockBus`] configured to fail.
#[derive(Clone, Copy, PartialEq, Eq, Structural, Debug)]
pub struct BusFault;

/// An output-pin test double: records every level successfully driven, and
/// can be configured to start failing once a given number of levels has
/// been accepted.
pub struct MockPin {
    log: Vec<PinLevel>,
    fail_at: Option<usize>,
}

impl MockPin {
    /// Whether the next set call is refused.
    pub closed spec fn fails_next(self) -> bool {
        match self.fail_at {
            Option::Some(n) => n == self.log@.len(),
            Option::None => false,
        }
    }

    /// A pin that accepts every set.
    pub fn new() -> (r: Self)
        ensures
            r.levels() == Seq::<PinLevel>::empty(),
            !r.fails_next(),
    {
        MockPin { log: Vec::new(), fail_at: None }
    }

    /// A pin that fails every set once `n` levels have been accepted.
    pub fn failing_after(n: usize) -> (r: Self)
        ensures
            r.levels() == Seq::<PinLevel>::empty(),
            r.fails_next() <==> n == 0,
    {
        MockPin { log: Vec::new(), fail_at: Some(n) }
    }

    /// The levels driven so far, oldest first.
    pub fn recorded(&self) -> (r: &Vec<PinLevel>)
        ensures
            r@ == self.levels(),
    {
        &self.log
    }
}

impl OutPin for MockPin {
    type Error = PinFault;

    closed spec fn levels(&self) -> Seq<PinLevel> {
        self.log@
    }

    fn set_low(&mut self) -> (r: Result<(), PinFault>)
        ensures
            r is Ok <==> !old(self).fails_next(),
    {
        let fail = match self.fail_at {
            Some(n) => n == self.log.len(),
            None => false,
        };
        if fail {
            Err(PinFault)
        } else {
            self.log.push(PinLevel::Low);
            Ok(())
        }
    }

    fn set_high(&mut self) -> (r: Result<(), PinFault>)
        ensures
            r is Ok <==> !old(self).fails_next(),
    {
        let fail = match self.fail_at {
            Some(n) => n == self.log.len(),
            None => false,
        };
        if fail {
            Err(PinFault)
        } else {
            self.log.push(PinLevel::High);
            Ok(())
        }
    }
}

/// A serial-bus test double: records the bytes of every successful write,
/// and can be configured to start failing once a given number of writes has
/// been accepted.
pub struct MockBus {
    log: Vec<Vec<u8>>,
    fail_at: Option<usize>,
}

impl MockBus {
    /// Whether the next write is refused.
    pub closed spec fn fails_next(self) -> bool {
        match self.fail_at {
            Option::Some(n) => n == self.log@.len(),
            Option::None => false,
        }
    }

    /// A bus that accepts every write.
    pub fn new() -> (r: Self)
        ensures
            r.writes() == Seq::<Seq<u8>>::empty(),
            !r.fails_next(),
    {
        let r = MockBus { log: Vec::new(), fail_at: None };
        proof {
            assert(r.log.deep_view() =~= Seq::<Seq<u8>>::empty());
        }
        r
    }

    /// A bus that fails every write once `n` writes have been accepted.
    pub fn failing_after(n: usize) -> (r: Self)
        ensures
            r.writes() == Seq::<Seq<u8>>::empty(),
            r.fails_next() <==> n == 0,
    {
        let r = MockBus { log: Vec::new(), fail_at: Some(n) };
        proof {
            assert(r.log.deep_view() =~= Seq::<Seq<u8>>::empty());
        }
        r
    }

    /// The byte sequences written so far, oldest first.
    pub fn recorded(&self) -> (r: &Vec<Vec<u8>>)
        ensures
            r.deep_view() == self.writes(),
    {
        &self.log
    }
}

impl Bus for MockBus {
    type Error = BusFault;

    closed spec fn writes(&self) -> Seq<Seq<u8>> {
        self.log.deep_view()
    }

    fn write(&mut self, data: &[u8]) -> (r: Result<(), BusFault>)
        ensures
            r is Ok <==> !old(self).fails_next(),
    {
        let fail = match self.fail_at {
            Some(n) => n == self.log.len(),
            None => false,
        };
        if fail {
            return Err(BusFault);
        }
        let mut v: Vec<u8> = Vec::new();
        let mut i: usize = 0;
        while i < data.len()
            invariant
                i <= data@.len(),
                v@ == data@.subrange(0, i as int),
            decreases data@.len() - i,
        {
            v.push(*vstd::slice::slice_index_get(data, i));
            proof {
                assert(v@ =~= data@.subrange(0, i as int + 1));
            }
            i += 1;
        }
        proof {
            assert(v@ =~= data@);
        }
        proof {
            assert(v.deep_view() =~= data@);
        }
        self.log.push(v);
        proof {
            assert(self.log.deep_view() =~= old(self).log.deep_view().push(data@));
        }
        Ok(())
    }
}

/// A delay test double: records every requested pause instead of blocking.
pub struct MockDelay {
    log: Vec<u16>,
}

impl MockDelay {
    /// A delay provider with an empty history.
    pub fn new() -> (r: Self)
        ensures
            r.delays() == Seq::<u16>::empty(),
    {
        MockDelay { log: Vec::new() }
    }

    /// The pauses requested so far in milliseconds, oldest first.
    pub fn recorded(&self) -> (r: &Vec<u16>)
        ensures
            r@ == self.delays(),
    {
        &self.log
    }
}

impl Delay for MockDelay {
    closed spec fn delays(&self) -> Seq<u16> {
        self.log@
    }

    fn delay_ms(&mut self, ms: u16) {
        self.log.push(ms);
    }
}

} // verus!
