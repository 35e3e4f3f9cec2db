//! Vendor ID register.

use vstd::prelude::*;

use crate::csr::{CsrBase, Read, MXLEN};

verus! {

/// The vendor ID register: fixed at construction and never changed, so its
/// writable-bit policy keeps the current value whatever is written.  The
/// register file additionally rejects writes to this kind outright.
#[derive(Clone, Copy, Debug)]
pub struct Mvendorid {
    pub value: MXLEN,
    pub power_on: MXLEN,
}

impl CsrBase for Mvendorid {
    open spec fn spec_value(&self) -> MXLEN {
        self.value
    }

    open spec fn spec_power_on(&self) -> MXLEN {
        self.power_on
    }

    open spec fn spec_write_policy(current: MXLEN, value: MXLEN) -> MXLEN {
        current
    }

    fn new(value: MXLEN) -> (r: Self)
        ensures
            r == (Mvendorid { value, power_on: value }),
    {
        Mvendorid { value, power_on: value }
    }

    fn reset(&mut self)
        ensures
            *final(self) == (Mvendorid { value: old(self).power_on, power_on: old(self).power_on }),
    {
        self.value = self.power_on;
    }

    fn write_value(&mut self, _value: MXLEN)
        ensures
            *final(self) == *old(self),
    {
    }

    fn read_value(&self) -> (r: MXLEN) {
        self.value
    }
}

impl Read for Mvendorid {

}

} // verus!
