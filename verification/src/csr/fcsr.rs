//! Floating-point control and status register.

use vstd::prelude::*;

use crate::csr::{CsrBase, Read, Write, MXLEN};

verus! {

/// The floating-point control and status register: its whole value packs
/// the rounding-mode field and the accrued-exceptions field, both fully
/// writable by the holder, so a whole-value write is accepted unmodified.
#[derive(Clone, Copy, Debug)]
pub struct Fcsr {
    pub value: MXLEN,
    pub power_on: MXLEN,
}

impl CsrBase for Fcsr {
    open spec fn spec_value(&self) -> MXLEN {
        self.value
    }

    open spec fn spec_power_on(&self) -> MXLEN {
        self.power_on
    }

    open spec fn spec_write_policy(current: MXLEN, value: MXLEN) -> MXLEN {
        value
    }

    fn new(value: MXLEN) -> (r: Self)
        ensures
            r == (Fcsr { value, power_on: value }),
    {
        Fcsr { value, power_on: value }
    }

    fn reset(&mut self)
        ensures
            *final(self) == (Fcsr { value: old(self).power_on, power_on: old(self).power_on }),
    {
        self.value = self.power_on;
    }

    fn write_value(&mut self, value: MXLEN)
        ensures
            *final(self) == (Fcsr { value, power_on: old(self).power_on }),
    {
        self.value = value;
    }

    fn read_value(&self) -> (r: MXLEN) {
        self.value
    }
}

impl Read for Fcsr {

}

impl Write for Fcsr {

}

} // verus!
