use rvcsr::csr::fcsr::Fcsr;
use rvcsr::csr::misa::Misa;
use rvcsr::csr::mvendorid::Mvendorid;
use rvcsr::csr::{to_range, BitBound, BitRange};
use rvcsr::csr::{Csr, CsrBase, CsrError, Read, State, Write, FCSR, MISA, MVENDORID, UEPC};

#[test]
fn fresh_file_write_read_reset_scenario() {
    let mut state = State::new();
    assert_eq!(state.read(FCSR), Ok(0));
    assert_eq!(state.write(FCSR, 5), Ok(()));
    assert_eq!(state.read(FCSR), Ok(5));
    state.reset();
    assert_eq!(state.read(FCSR), Ok(0));
}

#[test]
fn fresh_file_maps_exactly_the_configured_registers() {
    let state = State::new();
    assert_eq!(state.read(FCSR), Ok(0));
    assert_eq!(state.read(MVENDORID), Ok(0));
    assert_eq!(state.read(MISA), Ok(0));
}

#[test]
fn never_mapped_address_read_is_unmapped() {
    let state = State::new();
    assert_eq!(state.read(0x999), Err(CsrError::UnmappedRegister));
}

#[test]
fn never_mapped_address_write_is_unmapped() {
    let mut state = State::new();
    assert_eq!(state.write(0x999, 1), Err(CsrError::UnmappedRegister));
    // A named architectural address that this configuration does not wire up
    // misses in the same way.
    assert_eq!(state.read(UEPC), Err(CsrError::UnmappedRegister));
    assert_eq!(state.write(UEPC, 1), Err(CsrError::UnmappedRegister));
}

#[test]
fn vendor_id_is_read_only_at_the_file_level() {
    let mut state = State::new();
    assert_eq!(state.write(MVENDORID, 123), Err(CsrError::ReadOnlyRegister));
    assert_eq!(state.read(MVENDORID), Ok(0));
    assert_eq!(state.write(MVENDORID, -1), Err(CsrError::ReadOnlyRegister));
    assert_eq!(state.read(MVENDORID), Ok(0));
}

#[test]
fn misa_write_then_read_returns_the_written_value() {
    let mut state = State::new();
    assert_eq!(state.write(MISA, 0x1234_5678), Ok(()));
    assert_eq!(state.read(MISA), Ok(0x1234_5678));
    assert_eq!(state.write(MISA, -42), Ok(()));
    assert_eq!(state.read(MISA), Ok(-42));
}

#[test]
fn reset_restores_power_on_values_and_is_idempotent() {
    let mut state = State::new();
    assert_eq!(state.write(FCSR, 7), Ok(()));
    assert_eq!(state.write(MISA, -9), Ok(()));
    state.reset();
    assert_eq!(state.read(FCSR), Ok(0));
    assert_eq!(state.read(MISA), Ok(0));
    assert_eq!(state.read(MVENDORID), Ok(0));
    // Resetting a second time changes nothing.
    state.reset();
    assert_eq!(state.read(FCSR), Ok(0));
    assert_eq!(state.read(MISA), Ok(0));
    assert_eq!(state.read(MVENDORID), Ok(0));
}

#[test]
fn get_resolves_the_variant_behind_an_address() {
    let state = State::new();
    assert!(matches!(state.get(FCSR), Ok(Csr::Fcsr(_))));
    assert!(matches!(state.get(MVENDORID), Ok(Csr::Mvendorid(_))));
    assert!(matches!(state.get(MISA), Ok(Csr::Misa(_))));
    assert!(matches!(state.get(0x999), Err(CsrError::UnmappedRegister)));
}

#[test]
fn single_bit_round_trip_leaves_other_bits_alone() {
    let mut fcsr = Fcsr::new(0);
    assert_eq!(fcsr.write_bit(3, true), Ok(()));
    assert_eq!(fcsr.read_bit(3), Ok(true));
    assert_eq!(fcsr.read_bit(2), Ok(false));
    assert_eq!(fcsr.read_bit(4), Ok(false));
    assert_eq!(fcsr.read_value(), 8);
    assert_eq!(fcsr.write_bit(3, false), Ok(()));
    assert_eq!(fcsr.read_bit(3), Ok(false));
    assert_eq!(fcsr.read_value(), 0);
}

#[test]
fn bit_position_outside_the_word_is_rejected() {
    let mut fcsr = Fcsr::new(0);
    assert_eq!(fcsr.write_bit(64, true), Err(CsrError::InvalidBitRange));
    assert_eq!(fcsr.read_bit(64), Err(CsrError::InvalidBitRange));
    // Bit 63 is the last valid position.
    assert_eq!(fcsr.write_bit(63, true), Ok(()));
    assert_eq!(fcsr.read_bit(63), Ok(true));
}

#[test]
fn bit_range_round_trip() {
    let mut fcsr = Fcsr::new(0);
    assert_eq!(
        fcsr.write_bits(BitBound::Included(8), BitBound::Excluded(16), 0xAB),
        Ok(())
    );
    assert_eq!(
        fcsr.read_bits(BitBound::Included(8), BitBound::Excluded(16)),
        Ok(0xAB)
    );
    assert_eq!(fcsr.read_value(), 0xAB00);
}

#[test]
fn bit_range_write_truncates_to_the_span_width() {
    let mut fcsr = Fcsr::new(0);
    assert_eq!(
        fcsr.write_bits(BitBound::Included(0), BitBound::Excluded(8), 0x1FF),
        Ok(())
    );
    assert_eq!(
        fcsr.read_bits(BitBound::Included(0), BitBound::Excluded(8)),
        Ok(0xFF)
    );
    assert_eq!(fcsr.read_value(), 0xFF);
}

#[test]
fn bit_range_write_leaves_bits_outside_the_span_unchanged() {
    let mut misa = Misa::new(0);
    misa.write_value(0x5A00_0000_0000_00A5);
    assert_eq!(
        misa.write_bits(BitBound::Included(8), BitBound::Excluded(16), 0x3C),
        Ok(())
    );
    assert_eq!(misa.read_value(), 0x5A00_0000_0000_3CA5);
}

#[test]
fn rounding_mode_field_of_fcsr() {
    // The dynamic rounding mode sits in bits [5, 8) of fcsr.
    let mut fcsr = Fcsr::new(0);
    assert_eq!(
        fcsr.write_bits(BitBound::Included(5), BitBound::Excluded(8), 0b101),
        Ok(())
    );
    assert_eq!(fcsr.read_value(), 0b101 << 5);
    assert_eq!(
        fcsr.read_bits(BitBound::Included(5), BitBound::Excluded(8)),
        Ok(0b101)
    );
}

#[test]
fn empty_or_reversed_ranges_are_rejected() {
    let mut fcsr = Fcsr::new(0x55);
    assert_eq!(
        fcsr.read_bits(BitBound::Included(16), BitBound::Excluded(8)),
        Err(CsrError::InvalidBitRange)
    );
    assert_eq!(
        fcsr.read_bits(BitBound::Excluded(5), BitBound::Included(5)),
        Err(CsrError::InvalidBitRange)
    );
    assert_eq!(
        fcsr.write_bits(BitBound::Included(8), BitBound::Excluded(8), 1),
        Err(CsrError::InvalidBitRange)
    );
    // A rejected write leaves the register unchanged.
    assert_eq!(fcsr.read_value(), 0x55);
}

#[test]
fn ranges_beyond_the_word_width_are_rejected() {
    let mut fcsr = Fcsr::new(0);
    assert_eq!(
        fcsr.read_bits(BitBound::Included(0), BitBound::Included(64)),
        Err(CsrError::InvalidBitRange)
    );
    assert_eq!(
        fcsr.write_bits(BitBound::Included(0), BitBound::Excluded(65), 1),
        Err(CsrError::InvalidBitRange)
    );
    assert_eq!(
        fcsr.read_bits(BitBound::Included(usize::MAX), BitBound::Unbounded),
        Err(CsrError::InvalidBitRange)
    );
    assert_eq!(
        fcsr.read_bits(BitBound::Excluded(usize::MAX), BitBound::Unbounded),
        Err(CsrError::InvalidBitRange)
    );
}

#[test]
fn to_range_canonicalizes_each_bound_kind() {
    assert_eq!(
        to_range(BitBound::Included(0), BitBound::Excluded(8), 64),
        BitRange { start: 0, end: 8 }
    );
    assert_eq!(
        to_range(BitBound::Excluded(3), BitBound::Included(7), 64),
        BitRange { start: 4, end: 8 }
    );
    assert_eq!(
        to_range(BitBound::Unbounded, BitBound::Unbounded, 64),
        BitRange { start: 0, end: 64 }
    );
}

#[test]
fn whole_word_range_reads_the_sign_bit_faithfully() {
    let mut misa = Misa::new(0);
    misa.write_value(-1);
    assert_eq!(misa.read_value(), -1);
    assert_eq!(
        misa.read_bits(BitBound::Unbounded, BitBound::Unbounded),
        Ok(-1)
    );
    // Dropping the sign bit zero-extends the remaining 63 bits.
    assert_eq!(
        misa.read_bits(BitBound::Included(0), BitBound::Excluded(63)),
        Ok(i64::MAX)
    );
}

#[test]
fn vendor_id_kind_ignores_writes_on_its_own() {
    let mut vendor = Mvendorid::new(7);
    vendor.write_value(99);
    assert_eq!(vendor.read_value(), 7);
    vendor.reset();
    assert_eq!(vendor.read_value(), 7);
    assert_eq!(vendor.read_bit(0), Ok(true));
    assert_eq!(vendor.read_bit(1), Ok(true));
    assert_eq!(vendor.read_bit(3), Ok(false));
}

#[test]
fn reset_restores_an_explicit_power_on_value() {
    let mut fcsr = Fcsr::new(42);
    assert_eq!(fcsr.read_value(), 42);
    fcsr.write_value(7);
    assert_eq!(fcsr.read_value(), 7);
    fcsr.reset();
    assert_eq!(fcsr.read_value(), 42);
}
