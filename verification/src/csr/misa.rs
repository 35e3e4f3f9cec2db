//! ISA and extensions register.

use vstd::prelude::*;

use crate::csr::{CsrBase, Read, Write, MXLEN};

verus! {

/// The ISA and extensions register: its whole value encodes the supported
/// extension flags and the machine width.  In this design it is writable,
/// so a whole-value write is accepted unmodified; a hardware profile that
/// hard-wires parts of it would tighten this kind's own policy, not the
/// shared capability.
#[derive(Clone, Copy, Debug)]
pub struct Misa {
    pub value: MXLEN,
    pub power_on: MXLEN,
}

impl CsrBase for Misa {
    open spec fn spec_value(&self) -> MXLEN {
        self.value
    }

    open spec fn spec_power_on(&self) -> MXLEN {
        self.power_on
    }

    open spec fn spec_write_policy(current: MXLEN, value: MXLEN) -> MXLEN {
        value
    }

    fn new(value: MXLEN) -> (r: Self)
        ensures
            r == (Misa { value, power_on: value }),
    {
        Misa { value, power_on: value }
    }

    fn reset(&mut self)
        ensures
            *final(self) == (Misa { value: old(self).power_on, power_on: old(self).power_on }),
    {
        self.value = self.power_on;
    }

    fn write_value(&mut self, value: MXLEN)
        ensures
            *final(self) == (Misa { value, power_on: old(self).power_on }),
    {
        self.value = value;
    }

    fn read_value(&self) -> (r: MXLEN) {
        self.value
    }
}

impl Read for Misa {

}

impl Write for Misa {

}

} // verus!
