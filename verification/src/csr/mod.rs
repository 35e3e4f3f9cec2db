//! Control/status register (CSR) file of a single RISC-V hart: a fixed,
//! address-indexed bank of registers, each with its own access policy,
//! driven by instruction-level read and write operations.

pub mod bits;
pub mod fcsr;
pub mod misa;
pub mod mvendorid;

use vstd::prelude::*;

pub use crate::csr::bits::{to_range, BitBound, BitRange};
use crate::csr::bits::{
    checked_range, get_bit, get_bits, set_bit, set_bits, spec_range_end, spec_range_start,
    spec_valid_range,
};

verus! {

/// The architectural address of a control/status register: a sparse 12-bit
/// encoding carried in a wider storage type.
pub type CsrAddress = u32;

//////////////////////////////
// User-level CSR addresses //
//////////////////////////////
// User trap handling.
/// User exception program counter.
pub const UEPC: CsrAddress = 0x041;

/// User trap cause.
pub const UCAUSE: CsrAddress = 0x042;

// User floating-point CSRs.
/// Floating-point accrued exceptions.
pub const FFLAGS: CsrAddress = 0x001;

/// Floating-point dynamic rounding mode.
pub const FRB: CsrAddress = 0x002;

/// Floating-point control and status register (frm + fflags).
pub const FCSR: CsrAddress = 0x003;

/////////////////////////////////////
// Supervisor-level CSR addresses //
////////////////////////////////////
// Supervisor trap handling.
/// Supervisor exception program counter.
pub const SEPC: CsrAddress = 0x141;

/// Supervisor trap cause.
pub const SCAUSE: CsrAddress = 0x142;

/////////////////////////////////
// Machine-level CSR addresses //
/////////////////////////////////
// Machine information registers.
/// Vendor ID.
pub const MVENDORID: CsrAddress = 0xf11;

/// Architecture ID.
pub const MARCHID: CsrAddress = 0xf12;

/// Implementation ID.
pub const MIMPID: CsrAddress = 0xf13;

/// Hardware thread ID.
pub const MHARTID: CsrAddress = 0xf14;

// Machine trap setup.
/// Machine status register.
pub const MSTATUS: CsrAddress = 0x300;

/// ISA and extensions.
pub const MISA: CsrAddress = 0x301;

/// Machine exception delegation register.
pub const MEDELEG: CsrAddress = 0x302;

/// Machine interrupt delegation register.
pub const MIDELEG: CsrAddress = 0x303;

/// Machine interrupt-enable register.
pub const MIE: CsrAddress = 0x304;

/// Machine trap-handler base address.
pub const MTVEC: CsrAddress = 0x305;

/// Machine counter enable.
pub const MCOUNTEREN: CsrAddress = 0x306;

// Machine trap handling.
/// Scratch register for machine trap handlers.
pub const MSCRATCH: CsrAddress = 0x340;

/// Machine exception program counter.
pub const MEPC: CsrAddress = 0x341;

/// Machine trap cause.
pub const MCAUSE: CsrAddress = 0x342;

/// Machine bad address or instruction.
pub const MTVAL: CsrAddress = 0x343;

/// Machine interrupt pending.
pub const MIP: CsrAddress = 0x344;

/// The whole value of a register: one machine word.
#[allow(non_camel_case_types)]
pub type MXLEN = i64;

/// Number of bits in a whole register value.
pub const BIT_LENGTH: usize = 64;

/// A semantic rejection of a register access; the caller surfaces each kind
/// as its own trap, never as a host-level fault.
#[derive(Clone, Copy, Debug, PartialEq, Eq, Structural)]
pub enum CsrError {
    /// The address has no backing register in this configuration.
    UnmappedRegister,
    /// A write was attempted against a register the file declares immutable.
    ReadOnlyRegister,
    /// A bit or bit-range accessor received a range outside the word width
    /// or with start at or above end.
    InvalidBitRange,
}

/// The minimal capability every concrete register kind implements: construct
/// with a power-on value, reset to it, and read or replace the whole value
/// under the kind's own writable-bit policy.
pub trait CsrBase: Sized {
    /// The current whole value.
    spec fn spec_value(&self) -> MXLEN;

    /// The power-on value, fixed at construction.
    spec fn spec_power_on(&self) -> MXLEN;

    /// The kind's writable-bit policy: the whole value that results from
    /// writing `value` over the current whole value `current`.
    spec fn spec_write_policy(current: MXLEN, value: MXLEN) -> MXLEN;

    /// Build the register with its power-on whole value.
    fn new(value: MXLEN) -> (r: Self)
        ensures
            r.spec_value() == value,
            r.spec_power_on() == value,
    ;

    /// Restore the power-on value, whatever was written since.
    fn reset(&mut self)
        ensures
            final(self).spec_value() == old(self).spec_power_on(),
            final(self).spec_power_on() == old(self).spec_power_on(),
    ;

    /// Replace the whole value, as interpreted by the kind's own
    /// writable-bit policy.
    fn write_value(&mut self, value: MXLEN)
        ensures
            final(self).spec_value() == Self::spec_write_policy(old(self).spec_value(), value),
            final(self).spec_power_on() == old(self).spec_power_on(),
    ;

    /// The current whole value; always succeeds.
    fn read_value(&self) -> (r: MXLEN)
        ensures
            r == self.spec_value(),
    ;
}

/// Bit-level writes, derived once from the whole-value capability and the
/// bit-range algebra.
pub trait Write: CsrBase {
    /// Set or clear one bit of the register, leaving every other bit as the
    /// kind's write policy maps it; a position outside the word is rejected.
    fn write_bit(&mut self, bit: usize, value: bool) -> (r: Result<(), CsrError>)
        ensures
            match r {
                Ok(()) => {
                    &&& bit < BIT_LENGTH
                    &&& final(self).spec_value() == Self::spec_write_policy(
                        old(self).spec_value(),
                        set_bit(old(self).spec_value() as u64, bit as u64, value) as i64,
                    )
                    &&& final(self).spec_power_on() == old(self).spec_power_on()
                },
                Err(e) => {
                    &&& e == CsrError::InvalidBitRange
                    &&& bit >= BIT_LENGTH
                    &&& *final(self) == *old(self)
                },
            },
    {
        if bit >= BIT_LENGTH {
            return Err(CsrError::InvalidBitRange);
        }
        let w: u64 = self.read_value() as u64;
        let nw: u64 = if value {
            w | (1u64 << (bit as u64))
        } else {
            w & !(1u64 << (bit as u64))
        };
        self.write_value(nw as i64);
        Ok(())
    }

    /// Replace the span of bits named by the range request with `value`,
    /// truncated to the width of the span, leaving the rest of the word as
    /// the kind's write policy maps it; an empty or out-of-width range is
    /// rejected and the register is unchanged.
    fn write_bits(&mut self, start: BitBound, end: BitBound, value: MXLEN) -> (r: Result<
        (),
        CsrError,
    >)
        ensures
            match r {
                Ok(()) => {
                    &&& spec_valid_range(
                        spec_range_start(start),
                        spec_range_end(end, BIT_LENGTH as int),
                        BIT_LENGTH as int,
                    )
                    &&& final(self).spec_value() == Self::spec_write_policy(
                        old(self).spec_value(),
                        set_bits(
                            old(self).spec_value() as u64,
                            spec_range_start(start) as u64,
                            spec_range_end(end, BIT_LENGTH as int) as u64,
                            value as u64,
                        ) as i64,
                    )
                    &&& final(self).spec_power_on() == old(self).spec_power_on()
                },
                Err(e) => {
                    &&& e == CsrError::InvalidBitRange
                    &&& !spec_valid_range(
                        spec_range_start(start),
                        spec_range_end(end, BIT_LENGTH as int),
                        BIT_LENGTH as int,
                    )
                    &&& *final(self) == *old(self)
                },
            },
    {
        let rng = match checked_range(start, end, BIT_LENGTH) {
            Some(rng) => rng,
            None => {
                return Err(CsrError::InvalidBitRange);
            },
        };
        let w: u64 = self.read_value() as u64;
        let nw: u64 = crate::csr::bits::word_with_bits(w, rng.start, rng.end, value as u64);
        self.write_value(nw as i64);
        Ok(())
    }
}

/// Bit-level reads, derived once from the whole-value capability and the
/// bit-range algebra.
pub trait Read: CsrBase {
    /// Whether one bit of the register is set; a position outside the word
    /// is rejected.
    fn read_bit(&self, bit: usize) -> (r: Result<bool, CsrError>)
        ensures
            match r {
                Ok(b) => bit < BIT_LENGTH && b == get_bit(self.spec_value() as u64, bit as u64),
                Err(e) => e == CsrError::InvalidBitRange && bit >= BIT_LENGTH,
            },
    {
        if bit >= BIT_LENGTH {
            return Err(CsrError::InvalidBitRange);
        }
        let w: u64 = self.read_value() as u64;
        Ok(w & (1u64 << (bit as u64)) != 0)
    }

    /// The span of bits named by the range request, isolated and
    /// zero-extended; an empty or out-of-width range is rejected.
    fn read_bits(&self, start: BitBound, end: BitBound) -> (r: Result<MXLEN, CsrError>)
        ensures
            match r {
                Ok(v) => {
                    &&& spec_valid_range(
                        spec_range_start(start),
                        spec_range_end(end, BIT_LENGTH as int),
                        BIT_LENGTH as int,
                    )
                    &&& v as u64 == get_bits(
                        self.spec_value() as u64,
                        spec_range_start(start) as u64,
                        spec_range_end(end, BIT_LENGTH as int) as u64,
                    )
                },
                Err(e) => {
                    &&& e == CsrError::InvalidBitRange
                    &&& !spec_valid_range(
                        spec_range_start(start),
                        spec_range_end(end, BIT_LENGTH as int),
                        BIT_LENGTH as int,
                    )
                },
            },
    {
        let rng = match checked_range(start, end, BIT_LENGTH) {
            Some(rng) => rng,
            None => {
                return Err(CsrError::InvalidBitRange);
            },
        };
        let w: u64 = self.read_value() as u64;
        let v: u64 = crate::csr::bits::bits_of_word(w, rng.start, rng.end);
        proof {
            crate::csr::bits::lemma_word_cast_round_trip(v);
        }
        Ok(v as i64)
    }
}

/// A register of any of the implemented kinds.
#[derive(Clone, Copy, Debug)]
pub enum Csr {
    Fcsr(fcsr::Fcsr),
    Mvendorid(mvendorid::Mvendorid),
    Misa(misa::Misa),
}

/// The current whole value of a register of any kind.
pub open spec fn csr_value(c: Csr) -> MXLEN {
    match c {
        Csr::Fcsr(f) => f.spec_value(),
        Csr::Mvendorid(m) => m.spec_value(),
        Csr::Misa(m) => m.spec_value(),
    }
}

/// The power-on whole value of a register of any kind.
pub open spec fn csr_power_on(c: Csr) -> MXLEN {
    match c {
        Csr::Fcsr(f) => f.spec_power_on(),
        Csr::Mvendorid(m) => m.spec_power_on(),
        Csr::Misa(m) => m.spec_power_on(),
    }
}

/// Whether the register file declares this kind immutable: such a register
/// rejects writes at the file level, before any dispatch to the kind.
pub open spec fn csr_read_only(c: Csr) -> bool {
    c is Mvendorid
}

/// The register that results from writing `value` over `c` through the
/// kind's own writable-bit policy.
pub open spec fn csr_written(c: Csr, value: MXLEN) -> Csr {
    match c {
        Csr::Fcsr(f) => Csr::Fcsr(
            fcsr::Fcsr {
                value: fcsr::Fcsr::spec_write_policy(f.value, value),
                power_on: f.power_on,
            },
        ),
        Csr::Mvendorid(m) => Csr::Mvendorid(
            mvendorid::Mvendorid {
                value: mvendorid::Mvendorid::spec_write_policy(m.value, value),
                power_on: m.power_on,
            },
        ),
        Csr::Misa(m) => Csr::Misa(
            misa::Misa {
                value: misa::Misa::spec_write_policy(m.value, value),
                power_on: m.power_on,
            },
        ),
    }
}

/// The register that results from resetting `c` to its power-on value.
pub open spec fn csr_reset(c: Csr) -> Csr {
    match c {
        Csr::Fcsr(f) => Csr::Fcsr(fcsr::Fcsr { value: f.power_on, power_on: f.power_on }),
        Csr::Mvendorid(m) => Csr::Mvendorid(
            mvendorid::Mvendorid { value: m.power_on, power_on: m.power_on },
        ),
        Csr::Misa(m) => Csr::Misa(misa::Misa { value: m.power_on, power_on: m.power_on }),
    }
}

/// The address-to-register map after a bulk reset: same domain, every
/// register restored to its power-on value.
pub open spec fn spec_reset_map(m: Map<CsrAddress, Csr>) -> Map<CsrAddress, Csr> {
    Map::new(|a: CsrAddress| m.dom().contains(a), |a: CsrAddress| csr_reset(m[a]))
}

/// Whether two entries of the backing store never share an address.
spec fn unique_addrs(s: Seq<(CsrAddress, Csr)>) -> bool {
    forall|i: int, j: int| 0 <= i < j < s.len() ==> s[i].0 != s[j].0
}

/// Whether some entry of the backing store carries address `a`.
spec fn has_addr(s: Seq<(CsrAddress, Csr)>, a: CsrAddress) -> bool {
    exists|i: int| 0 <= i < s.len() && s[i].0 == a
}

/// The register that the backing store carries at address `a`.
spec fn entry_for(s: Seq<(CsrAddress, Csr)>, a: CsrAddress) -> Csr {
    s[choose|i: int| 0 <= i < s.len() && s[i].0 == a].1
}

/// The backing store, abstracted to the map from each wired-up address to
/// the register behind it.
spec fn map_of(s: Seq<(CsrAddress, Csr)>) -> Map<CsrAddress, Csr> {
    Map::new(|a: CsrAddress| has_addr(s, a), |a: CsrAddress| entry_for(s, a))
}

/// With unique addresses, the entry at index `i` is the one the whole store
/// associates with its address.
proof fn lemma_entry_at(s: Seq<(CsrAddress, Csr)>, i: int)
    requires
        unique_addrs(s),
        0 <= i < s.len(),
    ensures
        has_addr(s, s[i].0),
        entry_for(s, s[i].0) == s[i].1,
{
    assert(has_addr(s, s[i].0));
    let j = choose|j: int| 0 <= j < s.len() && s[j].0 == s[i].0;
    assert(j == i);
}

/// The register file of one hart: a fixed, address-indexed bank of
/// registers.  Which addresses exist is decided once, at construction; a
/// lookup miss always means the address was never wired up.
pub struct State {
    csrs: Vec<(CsrAddress, Csr)>,
}

impl View for State {
    type V = Map<CsrAddress, Csr>;

    /// The file, abstracted to the map from each wired-up address to the
    /// register behind it.
    closed spec fn view(&self) -> Map<CsrAddress, Csr> {
        map_of(self.csrs@)
    }
}

/// The address-to-register map of a freshly constructed file.
pub open spec fn spec_fresh_file() -> Map<CsrAddress, Csr> {
    map![
        FCSR => Csr::Fcsr(fcsr::Fcsr { value: 0, power_on: 0 }),
        MVENDORID => Csr::Mvendorid(mvendorid::Mvendorid { value: 0, power_on: 0 }),
        MISA => Csr::Misa(misa::Misa { value: 0, power_on: 0 }),
    ]
}

impl State {
    /// The backing store keeps one entry per address.
    pub closed spec fn inv(&self) -> bool {
        unique_addrs(self.csrs@)
    }

    /// Build the fixed address-to-register bank of this configuration, each
    /// register at its power-on value.
    pub fn new() -> (r: Self)
        ensures
            r.inv(),
            r@ == spec_fresh_file(),
    {
        let mut csrs: Vec<(CsrAddress, Csr)> = Vec::new();

        // User-level CSRs.
        csrs.push((FCSR, Csr::Fcsr(fcsr::Fcsr::new(0))));

        // Machine-level CSRs.
        csrs.push((MVENDORID, Csr::Mvendorid(mvendorid::Mvendorid::new(0))));
        csrs.push((MISA, Csr::Misa(misa::Misa::new(0))));

        let r = State { csrs };
        proof {
            let s = r.csrs@;
            assert(s.len() == 3);
            assert forall|a: CsrAddress|
                r@.contains_key(a) <==> spec_fresh_file().contains_key(a) by {
                if a == FCSR || a == MVENDORID || a == MISA {
                    assert(s[0].0 == FCSR && s[1].0 == MVENDORID && s[2].0 == MISA);
                    assert(has_addr(s, a));
                } else {
                    assert(!has_addr(s, a));
                }
            }
            assert forall|a: CsrAddress| r@.contains_key(a) implies r@[a]
                == spec_fresh_file()[a] by {
                if a == FCSR {
                    lemma_entry_at(s, 0);
                } else if a == MVENDORID {
                    lemma_entry_at(s, 1);
                } else {
                    lemma_entry_at(s, 2);
                }
            }
            assert(r@ =~= spec_fresh_file());
        }
        r
    }

    /// The index of the entry wired to `csr_address`, if any.
    fn find(&self, csr_address: CsrAddress) -> (r: Option<usize>)
        requires
            self.inv(),
        ensures
            match r {
                Some(i) => {
                    &&& i < self.csrs@.len()
                    &&& self.csrs@[i as int].0 == csr_address
                    &&& self@.contains_key(csr_address)
                    &&& self@[csr_address] == self.csrs@[i as int].1
                },
                None => !self@.contains_key(csr_address),
            },
    {
        let n = self.csrs.len();
        let mut i: usize = 0;
        while i < n
            invariant
                self.inv(),
                n == self.csrs@.len(),
                i <= n,
                forall|k: int| 0 <= k < i ==> self.csrs@[k].0 != csr_address,
            decreases n - i,
        {
            if self.csrs[i].0 == csr_address {
                proof {
                    lemma_entry_at(self.csrs@, i as int);
                }
                return Some(i);
            }
            i += 1;
        }
        assert(!has_addr(self.csrs@, csr_address));
        None
    }

    /// Resolve an address to the register behind it; an address that was
    /// never wired up is rejected as unmapped.
    pub fn get(&self, csr_address: CsrAddress) -> (r: Result<&Csr, CsrError>)
        requires
            self.inv(),
        ensures
            match r {
                Ok(c) => self@.contains_key(csr_address) && *c == self@[csr_address],
                Err(e) => e == CsrError::UnmappedRegister && !self@.contains_key(csr_address),
            },
    {
        match self.find(csr_address) {
            Some(i) => Ok(&self.csrs[i].1),
            None => Err(CsrError::UnmappedRegister),
        }
    }

    /// Read the whole value of the register at an address.  A mapped
    /// address always reads successfully: reads never fail on permissions
    /// in this design.  An address that was never wired up is rejected as
    /// unmapped.
    pub fn read(&self, csr_address: CsrAddress) -> (r: Result<MXLEN, CsrError>)
        requires
            self.inv(),
        ensures
            match r {
                Ok(v) => self@.contains_key(csr_address) && v == csr_value(self@[csr_address]),
                Err(e) => e == CsrError::UnmappedRegister && !self@.contains_key(csr_address),
            },
    {
        match self.find(csr_address) {
            Some(i) => match &self.csrs[i].1 {
                Csr::Fcsr(f) => Ok(f.read_value()),
                Csr::Mvendorid(m) => Ok(m.read_value()),
                Csr::Misa(m) => Ok(m.read_value()),
            },
            None => Err(CsrError::UnmappedRegister),
        }
    }

    /// Write a whole value to the register at an address, through the
    /// kind's own writable-bit policy.  An address that was never wired up
    /// is rejected as unmapped; an address the file declares immutable is
    /// rejected as read-only, before any dispatch to the kind.
    pub fn write(&mut self, csr_address: CsrAddress, value: MXLEN) -> (r: Result<(), CsrError>)
        requires
            old(self).inv(),
        ensures
            final(self).inv(),
            match r {
                Ok(()) => {
                    &&& old(self)@.contains_key(csr_address)
                    &&& !csr_read_only(old(self)@[csr_address])
                    &&& final(self)@ == old(self)@.insert(
                        csr_address,
                        csr_written(old(self)@[csr_address], value),
                    )
                },
                Err(e) => {
                    &&& *final(self) == *old(self)
                    &&& match e {
                        CsrError::UnmappedRegister => !old(self)@.contains_key(csr_address),
                        CsrError::ReadOnlyRegister => old(self)@.contains_key(csr_address)
                            && csr_read_only(old(self)@[csr_address]),
                        CsrError::InvalidBitRange => false,
                    }
                },
            },
    {
        let i = match self.find(csr_address) {
            Some(i) => i,
            None => {
                return Err(CsrError::UnmappedRegister);
            },
        };
        let entry = self.csrs[i];
        match entry.1 {
            Csr::Mvendorid(_) => Err(CsrError::ReadOnlyRegister),
            Csr::Fcsr(mut f) => {
                proof {
                    lemma_store_update(self.csrs@, i as int, csr_written(entry.1, value));
                }
                f.write_value(value);
                self.csrs[i] = (csr_address, Csr::Fcsr(f));
                Ok(())
            },
            Csr::Misa(mut m) => {
                proof {
                    lemma_store_update(self.csrs@, i as int, csr_written(entry.1, value));
                }
                m.write_value(value);
                self.csrs[i] = (csr_address, Csr::Misa(m));
                Ok(())
            },
        }
    }

    /// Reset every mapped register to its power-on value, whatever was
    /// written since construction; unconditional, cannot fail.
    pub fn reset(&mut self)
        requires
            old(self).inv(),
        ensures
            final(self).inv(),
            final(self)@ == spec_reset_map(old(self)@),
    {
        let n = self.csrs.len();
        let mut i: usize = 0;
        while i < n
            invariant
                self.csrs@.len() == n,
                n == old(self).csrs@.len(),
                i <= n,
                unique_addrs(old(self).csrs@),
                forall|k: int| i <= k < n ==> self.csrs@[k] == old(self).csrs@[k],
                forall|k: int|
                    0 <= k < i ==> self.csrs@[k] == (
                    old(self).csrs@[k].0,
                    csr_reset(old(self).csrs@[k].1),
                ),
            decreases n - i,
        {
            let entry = self.csrs[i];
            let nc = match entry.1 {
                Csr::Fcsr(mut f) => {
                    f.reset();
                    Csr::Fcsr(f)
                },
                Csr::Mvendorid(mut m) => {
                    m.reset();
                    Csr::Mvendorid(m)
                },
                Csr::Misa(mut m) => {
                    m.reset();
                    Csr::Misa(m)
                },
            };
            self.csrs[i] = (entry.0, nc);
            i += 1;
        }
        proof {
            lemma_store_reset(old(self).csrs@, self.csrs@);
        }
    }
}

/// Replacing the register of one entry, its address kept, keeps the
/// addresses unique and updates the abstract map at exactly that address.
proof fn lemma_store_update(s: Seq<(CsrAddress, Csr)>, i: int, c: Csr)
    requires
        unique_addrs(s),
        0 <= i < s.len(),
    ensures
        unique_addrs(s.update(i, (s[i].0, c))),
        map_of(s.update(i, (s[i].0, c))) == map_of(s).insert(s[i].0, c),
{
    let a0 = s[i].0;
    let s2 = s.update(i, (a0, c));
    assert(forall|k: int| 0 <= k < s.len() ==> s2[k].0 == s[k].0);
    assert(unique_addrs(s2));
    assert forall|a: CsrAddress|
        map_of(s2).contains_key(a) <==> map_of(s).insert(a0, c).contains_key(a) by {
        if has_addr(s, a) {
            let k = choose|k: int| 0 <= k < s.len() && s[k].0 == a;
            assert(s2[k].0 == a);
        }
        if has_addr(s2, a) {
            let k = choose|k: int| 0 <= k < s2.len() && s2[k].0 == a;
            assert(s[k].0 == a);
        }
    }
    assert forall|a: CsrAddress| map_of(s2).contains_key(a) implies map_of(s2)[a] == map_of(
        s,
    ).insert(a0, c)[a] by {
        if a == a0 {
            lemma_entry_at(s2, i);
        } else {
            let k = choose|k: int| 0 <= k < s.len() && s[k].0 == a;
            lemma_entry_at(s, k);
            lemma_entry_at(s2, k);
        }
    }
    assert(map_of(s2) =~= map_of(s).insert(a0, c));
}

/// Resetting every entry of the store, addresses kept, keeps the addresses
/// unique and resets the abstract map pointwise.
proof fn lemma_store_reset(s1: Seq<(CsrAddress, Csr)>, s2: Seq<(CsrAddress, Csr)>)
    requires
        unique_addrs(s1),
        s2.len() == s1.len(),
        forall|k: int| 0 <= k < s1.len() ==> s2[k] == (s1[k].0, csr_reset(s1[k].1)),
    ensures
        unique_addrs(s2),
        map_of(s2) == spec_reset_map(map_of(s1)),
{
    assert(forall|k: int| 0 <= k < s1.len() ==> s2[k].0 == s1[k].0);
    assert(unique_addrs(s2));
    assert forall|a: CsrAddress|
        map_of(s2).contains_key(a) <==> spec_reset_map(map_of(s1)).contains_key(a) by {
        if has_addr(s1, a) {
            let k = choose|k: int| 0 <= k < s1.len() && s1[k].0 == a;
            assert(s2[k].0 == a);
        }
        if has_addr(s2, a) {
            let k = choose|k: int| 0 <= k < s2.len() && s2[k].0 == a;
            assert(s1[k].0 == a);
        }
    }
    assert forall|a: CsrAddress| map_of(s2).contains_key(a) implies map_of(s2)[a] == csr_reset(
        map_of(s1)[a],
    ) by {
        let k = choose|k: int| 0 <= k < s1.len() && s1[k].0 == a;
        lemma_entry_at(s1, k);
        lemma_entry_at(s2, k);
    }
    assert(map_of(s2) =~= spec_reset_map(map_of(s1)));
}

/// The shape every reachable file state keeps: the domain fixed at
/// construction, each address wired to its architectural kind, and the
/// vendor ID still holding its power-on value.
pub open spec fn file_inv(m: Map<CsrAddress, Csr>) -> bool {
    &&& m.dom() == set![FCSR, MVENDORID, MISA]
    &&& m[FCSR] is Fcsr
    &&& m[MVENDORID] is Mvendorid
    &&& m[MISA] is Misa
    &&& csr_value(m[MVENDORID]) == csr_power_on(m[MVENDORID])
}

/// A freshly constructed file keeps the file shape, with every register at
/// power-on value zero.
pub proof fn lemma_fresh_file_inv()
    ensures
        file_inv(spec_fresh_file()),
        forall|a: CsrAddress| #[trigger]
            spec_fresh_file().contains_key(a) ==> csr_value(spec_fresh_file()[a]) == 0
                && csr_power_on(spec_fresh_file()[a]) == 0,
{
    assert(spec_fresh_file().dom() =~= set![FCSR, MVENDORID, MISA]);
}

/// A freshly constructed file maps exactly FCSR, MVENDORID and MISA: every
/// other address misses, so `read` and `write` there are rejected as
/// unmapped.
pub proof fn lemma_fresh_file_unmapped(csr_address: CsrAddress)
    requires
        csr_address != FCSR,
        csr_address != MVENDORID,
        csr_address != MISA,
    ensures
        !spec_fresh_file().contains_key(csr_address),
{
}

/// Writing a mapped, writable register and then reading the same address
/// back yields exactly the written whole value: every writable kind of
/// this configuration accepts the whole word without field masking.  The
/// power-on value is untouched.
pub proof fn lemma_write_then_read(m: Map<CsrAddress, Csr>, csr_address: CsrAddress, value: MXLEN)
    requires
        m.contains_key(csr_address),
        !csr_read_only(m[csr_address]),
    ensures
        m.insert(csr_address, csr_written(m[csr_address], value)).contains_key(csr_address),
        csr_value(m.insert(csr_address, csr_written(m[csr_address], value))[csr_address]) == value,
        csr_power_on(m.insert(csr_address, csr_written(m[csr_address], value))[csr_address])
            == csr_power_on(m[csr_address]),
{
}

/// In every state with the file shape, MVENDORID is mapped and read-only:
/// a write there is rejected, and a read returns the construction-time
/// (power-on) value.
pub proof fn lemma_vendor_id_immutable(m: Map<CsrAddress, Csr>)
    requires
        file_inv(m),
    ensures
        m.contains_key(MVENDORID),
        csr_read_only(m[MVENDORID]),
        csr_value(m[MVENDORID]) == csr_power_on(m[MVENDORID]),
{
}

/// A successful write keeps the file shape.
pub proof fn lemma_file_inv_write(m: Map<CsrAddress, Csr>, csr_address: CsrAddress, value: MXLEN)
    requires
        file_inv(m),
        m.contains_key(csr_address),
        !csr_read_only(m[csr_address]),
    ensures
        file_inv(m.insert(csr_address, csr_written(m[csr_address], value))),
{
    let m2 = m.insert(csr_address, csr_written(m[csr_address], value));
    assert(m2.dom() =~= m.dom());
}

/// A bulk reset keeps the file shape.
pub proof fn lemma_file_inv_reset(m: Map<CsrAddress, Csr>)
    requires
        file_inv(m),
    ensures
        file_inv(spec_reset_map(m)),
{
    assert(spec_reset_map(m).dom() =~= m.dom());
}

/// A bulk reset restores every mapped register to its declared power-on
/// value, whatever was written before, and maps no new address.
pub proof fn lemma_reset_restores_power_on(m: Map<CsrAddress, Csr>, csr_address: CsrAddress)
    ensures
        spec_reset_map(m).contains_key(csr_address) <==> m.contains_key(csr_address),
        m.contains_key(csr_address) ==> csr_value(spec_reset_map(m)[csr_address]) == csr_power_on(
            m[csr_address],
        ) && csr_power_on(spec_reset_map(m)[csr_address]) == csr_power_on(m[csr_address]),
{
}

/// A bulk reset is idempotent: resetting twice yields the same state as
/// resetting once.
pub proof fn lemma_reset_idempotent(m: Map<CsrAddress, Csr>)
    ensures
        spec_reset_map(spec_reset_map(m)) == spec_reset_map(m),
{
    assert(spec_reset_map(spec_reset_map(m)) =~= spec_reset_map(m));
}

} // verus!
