use vstd::prelude::*;

use crate::parity::{odd_parity, verify_parity};

verus! {

/// The validity flag of a marker byte (bit 2).
pub open spec fn cc_valid_of(marker: u8) -> u8 {
    (marker & 4) >> 2
}

/// The caption type of a marker byte (bits 0 and 1): 0 and 1 are line-21
/// (CEA-608) data, 2 and 3 are CEA-708 data.
pub open spec fn cc_type_of(marker: u8) -> u8 {
    marker & 3
}

/// The type of a marker is below 4 and its validity flag below 2.
pub proof fn lemma_marker_fields(marker: u8)
    ensures
        cc_type_of(marker) <= 3,
        cc_valid_of(marker) <= 1,
{
    assert(marker & 3 <= 3) by (bit_vector);
    assert((marker & 4) >> 2 <= 1) by (bit_vector);
}

/// The code of a solid blank, written over an unusable first byte.
pub const SOLID_BLANK: u8 = 0x7F;

/// Whether a unit with this marker and second payload byte passes validation:
/// its validity flag is set and, for line-21 data, the second byte does not
/// have odd parity.
pub open spec fn pair_accepted(marker: u8, data2: u8) -> bool {
    &&& cc_valid_of(marker) == 1
    &&& cc_type_of(marker) <= 1 ==> !odd_parity(data2)
}

/// Whether validation of the unit replaces its first payload byte by a blank:
/// an accepted line-21 unit whose first byte has odd parity.
pub open spec fn blanks_first_byte(marker: u8, data1: u8, data2: u8) -> bool {
    &&& pair_accepted(marker, data2)
    &&& cc_type_of(marker) <= 1
    &&& odd_parity(data1)
}

/// The unit as validation leaves it.
pub open spec fn validated_unit(unit: Seq<u8>) -> Seq<u8> {
    if blanks_first_byte(unit[0], unit[1], unit[2]) {
        unit.update(1, SOLID_BLANK)
    } else {
        unit
    }
}

/// Returns `true` if the unit `[marker, data1, data2]` at the start of
/// `cc_block` is valid.
///
/// For CEA-708 data only the validity flag is checked. For line-21 data the
/// pair is dropped when the second byte has odd parity; otherwise, when the
/// first byte has odd parity, it is replaced by a solid blank and the pair is
/// kept.
pub fn validate_cc_pair(cc_block: &mut [u8]) -> (r: bool)
    requires
        old(cc_block)@.len() >= 3,
    ensures
        r == pair_accepted(old(cc_block)@[0], old(cc_block)@[2]),
        final(cc_block)@ == validated_unit(old(cc_block)@.subrange(0, 3)) + old(cc_block)@.subrange(
            3,
            old(cc_block)@.len() as int,
        ),
        cc_valid_of(old(cc_block)@[0]) == 0 ==> !r && final(cc_block)@ == old(cc_block)@,
        cc_type_of(old(cc_block)@[0]) <= 1 && odd_parity(old(cc_block)@[2]) ==> !r,
        cc_valid_of(old(cc_block)@[0]) == 1 && cc_type_of(old(cc_block)@[0]) <= 1 && !odd_parity(
            old(cc_block)@[2],
        ) && odd_parity(old(cc_block)@[1]) ==> r && final(cc_block)@[1] == SOLID_BLANK,
        cc_valid_of(old(cc_block)@[0]) == 1 && cc_type_of(old(cc_block)@[0]) >= 2 ==> r
            && final(cc_block)@ == old(cc_block)@,
{
    let marker = cc_block[0];
    let cc_valid = (marker & 4) >> 2;
    let cc_type = marker & 3;
    proof {
        lemma_marker_fields(marker);
        assert(old(cc_block)@.subrange(0, 3)[1] == old(cc_block)@[1]);
        assert(old(cc_block)@ =~= old(cc_block)@.subrange(0, 3) + old(cc_block)@.subrange(
            3,
            old(cc_block)@.len() as int,
        ));
    }
    if cc_valid == 0 {
        return false;
    }
    if cc_type == 0 || cc_type == 1 {
        if verify_parity(cc_block[2]) {
            return false;
        }
        if verify_parity(cc_block[1]) {
            cc_block[1] = SOLID_BLANK;
            proof {
                assert(cc_block@ =~= validated_unit(old(cc_block)@.subrange(0, 3))
                    + old(cc_block)@.subrange(3, old(cc_block)@.len() as int));
            }
        }
    }
    true
}

} // verus!
