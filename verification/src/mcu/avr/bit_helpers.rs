//! Extracting bit fields from AVR opcodes.

use vstd::prelude::*;

verus! {

/// The contiguous bits `hi` down to `lo` of `x`, shifted down to bit 0.
pub open spec fn spec_bit_field(x: u16, hi: u16, lo: u16) -> u16 {
    (x >> lo) & ((((1u32 << ((hi - lo + 1) as u32)) - 1) % 0x10000) as u16)
}

/// Extracts the contiguous bits `hi` down to `lo` of `x`.
pub fn bit_field(x: u16, hi: u16, lo: u16) -> (r: u16)
    requires
        lo <= hi < 16,
    ensures
        r == spec_bit_field(x, hi, lo),
{
    let width: u32 = (hi - lo + 1) as u32;
    proof {
        assert(width <= 16 ==> (1u32 << width) >= 1) by (bit_vector);
    }
    let mask: u16 = (((1u32 << width) - 1) % 0x10000) as u16;
    (x >> lo) & mask
}

/// The value of several bit fields of `x`, concatenated: the first
/// field gives the most significant bits, the last the least.
pub open spec fn spec_bit_field_combined(x: u16, fields: Seq<(u16, u16)>) -> u16
    decreases fields.len(),
{
    if fields.len() == 0 {
        0u16
    } else {
        let last = fields.last();
        let w = (last.0 - last.1 + 1) as u32;
        let rest = spec_bit_field_combined(x, fields.drop_last());
        ((((rest as u32) << w) | (spec_bit_field(x, last.0, last.1) as u32)) % 0x10000) as u16
    }
}

/// Concatenates several bit fields of `x`, each given as a
/// `(high, low)` bit pair; the first field lands in the most
/// significant position.
pub fn bit_field_combined(x: u16, fields: &Vec<(u16, u16)>) -> (r: u16)
    requires
        forall|i: int| 0 <= i < fields@.len() ==> (#[trigger] fields@[i]).1 <= fields@[i].0 < 16,
    ensures
        r == spec_bit_field_combined(x, fields@),
{
    let r = combined_up_to(x, fields, fields.len());
    proof {
        assert(fields@.take(fields@.len() as int) =~= fields@);
    }
    r
}

/// The concatenation of the first `k` fields.
fn combined_up_to(x: u16, fields: &Vec<(u16, u16)>, k: usize) -> (r: u16)
    requires
        k <= fields@.len(),
        forall|i: int| 0 <= i < fields@.len() ==> (#[trigger] fields@[i]).1 <= fields@[i].0 < 16,
    ensures
        r == spec_bit_field_combined(x, fields@.take(k as int)),
    decreases k,
{
    if k == 0 {
        0
    } else {
        let rest = combined_up_to(x, fields, k - 1);
        let (hi, lo) = fields[k - 1];
        let w: u32 = (hi - lo + 1) as u32;
        let f = bit_field(x, hi, lo);
        let r: u16 = ((((rest as u32) << w) | (f as u32)) % 0x10000) as u16;
        proof {
            let fs = fields@.take(k as int);
            assert(fs.last() == fields@[k - 1]);
            assert(fs.drop_last() =~= fields@.take(k - 1));
        }
        r
    }
}

/// The source-register field of an opcode, of the given width.
pub fn get_r_field(opcode: u16, size: usize) -> (r: u16)
    requires
        size == 3 || size == 4 || size == 5,
    ensures
        size == 3 ==> r == (0x18 | spec_bit_field_combined(opcode, seq![(2u16, 0u16)])),
        size == 4 ==> r == (0x10 | spec_bit_field_combined(opcode, seq![(3u16, 0u16)])),
        size == 5 ==> r == spec_bit_field_combined(opcode, seq![(9u16, 9u16), (3u16, 0u16)]),
{
    if size == 3 {
        let fields = vec![(2u16, 0u16)];
        proof {
            assert(fields@ =~= seq![(2u16, 0u16)]);
        }
        0x18 | bit_field_combined(opcode, &fields)
    } else if size == 4 {
        let fields = vec![(3u16, 0u16)];
        proof {
            assert(fields@ =~= seq![(3u16, 0u16)]);
        }
        0x10 | bit_field_combined(opcode, &fields)
    } else {
        let fields = vec![(9u16, 9u16), (3u16, 0u16)];
        proof {
            assert(fields@ =~= seq![(9u16, 9u16), (3u16, 0u16)]);
        }
        bit_field_combined(opcode, &fields)
    }
}

/// The destination-register field of an opcode, of the given width.
pub fn get_d_field(opcode: u16, size: usize) -> (r: u16)
    requires
        size == 2 || size == 3 || size == 4 || size == 5,
    ensures
        size == 2 ==> r == (0x18 | (spec_bit_field_combined(opcode, seq![(5u16, 4u16)]) << 1u16)),
        size == 3 ==> r == (0x18 | spec_bit_field_combined(opcode, seq![(6u16, 4u16)])),
        size == 4 ==> r == (0x10 | spec_bit_field_combined(opcode, seq![(7u16, 4u16)])),
        size == 5 ==> r == spec_bit_field_combined(opcode, seq![(8u16, 4u16)]),
{
    if size == 2 {
        let fields = vec![(5u16, 4u16)];
        proof {
            assert(fields@ =~= seq![(5u16, 4u16)]);
        }
        let v = bit_field_combined(opcode, &fields);
        0x18 | (v << 1u16)
    } else if size == 3 {
        let fields = vec![(6u16, 4u16)];
        proof {
            assert(fields@ =~= seq![(6u16, 4u16)]);
        }
        0x18 | bit_field_combined(opcode, &fields)
    } else if size == 4 {
        let fields = vec![(7u16, 4u16)];
        proof {
            assert(fields@ =~= seq![(7u16, 4u16)]);
        }
        0x10 | bit_field_combined(opcode, &fields)
    } else {
        let fields = vec![(8u16, 4u16)];
        proof {
            assert(fields@ =~= seq![(8u16, 4u16)]);
        }
        bit_field_combined(opcode, &fields)
    }
}

/// Both register fields of a two-register opcode.
pub fn get_rd_fields(opcode: u16, size: usize) -> (r: (u16, u16))
    requires
        size == 3 || size == 4 || size == 5,
    ensures
        size == 3 ==> r.0 == (0x18 | spec_bit_field_combined(opcode, seq![(2u16, 0u16)])) && r.1
            == (0x18 | spec_bit_field_combined(opcode, seq![(6u16, 4u16)])),
        size == 4 ==> r.0 == (0x10 | spec_bit_field_combined(opcode, seq![(3u16, 0u16)])) && r.1
            == (0x10 | spec_bit_field_combined(opcode, seq![(7u16, 4u16)])),
        size == 5 ==> r.0 == spec_bit_field_combined(opcode, seq![(9u16, 9u16), (3u16, 0u16)])
            && r.1 == spec_bit_field_combined(opcode, seq![(8u16, 4u16)]),
{
    (get_r_field(opcode, size), get_d_field(opcode, size))
}

/// The 6-bit immediate of `ADIW`-style opcodes.
pub fn get_k6(opcode: u16) -> (r: u8)
    ensures
        r == spec_bit_field_combined(opcode, seq![(7u16, 6u16), (3u16, 0u16)]) as u8,
{
    let fields = vec![(7u16, 6u16), (3u16, 0u16)];
    proof {
        assert(fields@ =~= seq![(7u16, 6u16), (3u16, 0u16)]);
    }
    #[verifier::truncate] (bit_field_combined(opcode, &fields) as u8)
}

/// The 8-bit immediate of immediate-operand opcodes.
pub fn get_k8(opcode: u16) -> (r: u8)
    ensures
        r == spec_bit_field_combined(opcode, seq![(11u16, 8u16), (3u16, 0u16)]) as u8,
{
    let fields = vec![(11u16, 8u16), (3u16, 0u16)];
    proof {
        assert(fields@ =~= seq![(11u16, 8u16), (3u16, 0u16)]);
    }
    #[verifier::truncate] (bit_field_combined(opcode, &fields) as u8)
}

/// The 6-bit address of `IN`/`OUT` opcodes.
pub fn get_io6(opcode: u16) -> (r: u8)
    ensures
        r == spec_bit_field_combined(opcode, seq![(10u16, 9u16), (3u16, 0u16)]) as u8,
{
    let fields = vec![(10u16, 9u16), (3u16, 0u16)];
    proof {
        assert(fields@ =~= seq![(10u16, 9u16), (3u16, 0u16)]);
    }
    #[verifier::truncate] (bit_field_combined(opcode, &fields) as u8)
}

/// The 5-bit address of bit-level input/output opcodes.
pub fn get_io5(opcode: u16) -> (r: u8)
    ensures
        r == spec_bit_field_combined(opcode, seq![(7u16, 3u16)]) as u8,
{
    let fields = vec![(7u16, 3u16)];
    proof {
        assert(fields@ =~= seq![(7u16, 3u16)]);
    }
    #[verifier::truncate] (bit_field_combined(opcode, &fields) as u8)
}

/// Whether the opcode occupies two program words.
pub fn is_two_word(opcode: u16) -> (r: bool)
    ensures
        r == ((opcode & 0xFC0F) == 0x9000 || (opcode & 0xFE0C) == 0x940C),
{
    (opcode & 0xFC0F) == 0x9000 || (opcode & 0xFE0C) == 0x940C
}

} // verus!
