//! The 32-bit gene word: how its fields are packed and read back.
//!
//! | bits  | field                |
//! |-------|----------------------|
//! | 31    | input is internal    |
//! | 24-30 | input id             |
//! | 23    | output is internal   |
//! | 16-22 | output id            |
//! | 0-15  | weight               |

use vstd::prelude::*;

verus! {

/// One wiring instruction of a genome.
pub type Gene = i32;

/// The word that the five fields pack into (ids are cut to 7 bits).
pub open spec fn gene_of(input: i32, output: i32, weight: u16, input_is_internal: bool, output_is_internal: bool) -> i32 {
    (((input & 0x7f) << 24u32) | ((output & 0x7f) << 16u32)
        | (if input_is_internal { i32::MIN } else { 0i32 })
        | (if output_is_internal { 0x80_0000i32 } else { 0i32 })
        | (weight as i32))
}

/// The input id held in bits 24-30.
pub open spec fn input_field(g: i32) -> i32 {
    (g >> 24u32) & 0x7f
}

/// The output id held in bits 16-22.
pub open spec fn output_field(g: i32) -> i32 {
    (g >> 16u32) & 0x7f
}

/// The weight held in bits 0-15.
pub open spec fn weight_field(g: i32) -> u16 {
    (g & 0xffff) as u16
}

/// Bit 31.
pub open spec fn input_flag(g: i32) -> bool {
    g < 0
}

/// Bit 23.
pub open spec fn output_flag(g: i32) -> bool {
    (g >> 23u32) & 1 == 1
}

/// The five fields of a gene word.
pub open spec fn fields_of(g: i32) -> (i32, i32, u16, bool, bool) {
    (input_field(g), output_field(g), weight_field(g), input_flag(g), output_flag(g))
}

/// Packs a gene. Ids of 128 and more are cut to their low 7 bits.
pub fn encode_gene(input: i32, output: i32, weight: u16, input_is_internal: bool, output_is_internal: bool) -> (r: Gene)
    ensures
        r == gene_of(input, output, weight, input_is_internal, output_is_internal),
{
    let mut ret: i32 = ((input & 0x7f) << 24u32) | ((output & 0x7f) << 16u32);
    ret = ret | if input_is_internal { i32::MIN } else { 0i32 };
    ret = ret | if output_is_internal { 0x80_0000i32 } else { 0i32 };
    ret | (weight as i32)
}

/// Reads the five fields of a gene: `(input, output, weight, input_is_internal,
/// output_is_internal)`. Every word decodes.
pub fn decode_gene(gene: Gene) -> (r: (i32, i32, u16, bool, bool))
    ensures
        r == fields_of(gene),
        0 <= r.0 < 128,
        0 <= r.1 < 128,
{
    let input_is_internal = gene < 0;
    let output_is_internal = ((gene >> 23u32) & 1) == 1;
    let input: i32 = (gene >> 24u32) & 0x7f;
    let output: i32 = (gene >> 16u32) & 0x7f;
    let weight: u16 = (gene & 0xffff) as u16;
    proof {
        assert(0 <= (gene >> 24u32) & 0x7f < 128) by (bit_vector);
        assert(0 <= (gene >> 16u32) & 0x7f < 128) by (bit_vector);
    }
    (input, output, weight, input_is_internal, output_is_internal)
}

/// Decoding an encoded gene gives back its fields, for ids below 128.
pub proof fn lemma_decode_encode(input: i32, output: i32, weight: u16, input_is_internal: bool, output_is_internal: bool)
    requires
        0 <= input < 128,
        0 <= output < 128,
    ensures
        fields_of(gene_of(input, output, weight, input_is_internal, output_is_internal))
            == (input, output, weight, input_is_internal, output_is_internal),
{
    let g = gene_of(input, output, weight, input_is_internal, output_is_internal);
    assert(input_field(g) == input) by (bit_vector)
        requires
            g == gene_of(input, output, weight, input_is_internal, output_is_internal),
            0 <= input < 128,
            0 <= output < 128,
    ;
    assert(output_field(g) == output) by (bit_vector)
        requires
            g == gene_of(input, output, weight, input_is_internal, output_is_internal),
            0 <= input < 128,
            0 <= output < 128,
    ;
    assert(weight_field(g) == weight) by (bit_vector)
        requires
            g == gene_of(input, output, weight, input_is_internal, output_is_internal),
    ;
    assert(input_flag(g) == input_is_internal) by (bit_vector)
        requires
            g == gene_of(input, output, weight, input_is_internal, output_is_internal),
            0 <= input < 128,
            0 <= output < 128,
    ;
    assert(output_flag(g) == output_is_internal) by (bit_vector)
        requires
            g == gene_of(input, output, weight, input_is_internal, output_is_internal),
            0 <= input < 128,
            0 <= output < 128,
    ;
}

/// Every word is the encoding of the fields it decodes to.
pub proof fn lemma_encode_decode(g: i32)
    ensures
        gene_of(input_field(g), output_field(g), weight_field(g), input_flag(g), output_flag(g)) == g,
{
    assert(gene_of(input_field(g), output_field(g), weight_field(g), input_flag(g), output_flag(g)) == g)
        by (bit_vector);
}

} // verus!
