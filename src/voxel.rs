//! The packed 32-bit voxel code.
//!
//! Bits 24..32 hold the palette color index, bit 0 marks the voxel as
//! occupied, and an effect strength sits in between, shifted by the amount
//! that its effect kind selects.

use vstd::prelude::*;

verus! {

/// What an effect strength modulates.
#[derive(Clone, Copy, Debug, PartialEq, Eq, Structural)]
pub enum EffectKind {
    Emissive,
    Glow,
    Translucent,
}

/// The shift that places a strength of this kind in the voxel code.
pub open spec fn effect_shift(kind: EffectKind) -> u32 {
    match kind {
        EffectKind::Emissive => 20,
        EffectKind::Glow => 18,
        EffectKind::Translucent => 16,
    }
}

/// Strengths below this bound fit between the occupied bit and the color
/// byte: `2^(24 - effect_shift(kind))`.
pub open spec fn effect_capacity(kind: EffectKind) -> u32 {
    match kind {
        EffectKind::Emissive => 16,
        EffectKind::Glow => 64,
        EffectKind::Translucent => 256,
    }
}

/// The effect kind named by a `.pec` type character.
pub open spec fn kind_of_char(c: char) -> Option<EffectKind> {
    if c == 'e' {
        Some(EffectKind::Emissive)
    } else if c == 'g' {
        Some(EffectKind::Glow)
    } else if c == 't' {
        Some(EffectKind::Translucent)
    } else {
        None
    }
}

/// The modifier bits for `strength` of `kind`; bits shifted past 31 are lost.
pub open spec fn modifier_bits(kind: EffectKind, strength: u32) -> u32 {
    strength << effect_shift(kind)
}

/// The code of an occupied voxel of palette color `color_index` with the
/// effect `modifier`.
pub open spec fn voxel_code(color_index: u8, modifier: u32) -> u32 {
    ((color_index as u32) << 24u32) | modifier | 1u32
}

/// The palette color index of a code.
pub open spec fn color_of(code: u32) -> u8 {
    (code >> 24u32) as u8
}

/// The strength of `kind` read back from a code.
pub open spec fn strength_of(code: u32, kind: EffectKind) -> u32 {
    (code & 0x00FF_FFFFu32) >> effect_shift(kind)
}

/// The shift amount of `kind`.
pub fn shift_of(kind: EffectKind) -> (r: u32)
    ensures
        r == effect_shift(kind),
{
    match kind {
        EffectKind::Emissive => 20,
        EffectKind::Glow => 18,
        EffectKind::Translucent => 16,
    }
}

/// The effect kind of a type character: `e`, `g` or `t`.
pub fn effect_kind_of(c: char) -> (r: Option<EffectKind>)
    ensures
        r == kind_of_char(c),
{
    if c == 'e' {
        Some(EffectKind::Emissive)
    } else if c == 'g' {
        Some(EffectKind::Glow)
    } else if c == 't' {
        Some(EffectKind::Translucent)
    } else {
        None
    }
}

/// The modifier bits for `strength` of `kind`.
pub fn effect_modifier(kind: EffectKind, strength: u32) -> (r: u32)
    ensures
        r == modifier_bits(kind, strength),
{
    let s = shift_of(kind);
    strength << s
}

/// Packs a color index and modifier bits into an occupied voxel code.
pub fn encode_voxel(color_index: u8, modifier: u32) -> (r: u32)
    ensures
        r == voxel_code(color_index, modifier),
        r & 1u32 == 1u32,
{
    let r = ((color_index as u32) << 24u32) | modifier | 1u32;
    assert(r & 1u32 == 1u32) by (bit_vector)
        requires
            r == ((color_index as u32) << 24u32) | modifier | 1u32,
    ;
    r
}

/// The palette color index of a voxel code.
pub fn voxel_color(code: u32) -> (r: u8)
    ensures
        r == color_of(code),
{
    (code >> 24u32) as u8
}

/// The strength of `kind` held by a voxel code.
pub fn voxel_strength(code: u32, kind: EffectKind) -> (r: u32)
    ensures
        r == strength_of(code, kind),
{
    let s = shift_of(kind);
    (code & 0x00FF_FFFFu32) >> s
}

/// Whether a voxel code marks an occupied voxel: its low byte is nonzero.
pub fn is_occupied(code: u32) -> (r: bool)
    ensures
        r == (code & 0xFFu32 != 0),
{
    code & 0xFFu32 != 0
}

/// Packing a color index with a strength that fits below the color byte, then
/// reading both back under the same effect kind, gives them unchanged.
pub proof fn lemma_packing_round_trip(color_index: u8, kind: EffectKind, strength: u32)
    requires
        strength < effect_capacity(kind),
    ensures
        color_of(voxel_code(color_index, modifier_bits(kind, strength))) == color_index,
        strength_of(voxel_code(color_index, modifier_bits(kind, strength)), kind) == strength,
{
    let c = color_index as u32;
    assert(c < 256);
    match kind {
        EffectKind::Emissive => {
            assert((((c << 24u32) | (strength << 20u32) | 1u32) >> 24u32) == c
                && ((((c << 24u32) | (strength << 20u32) | 1u32) & 0x00FF_FFFFu32) >> 20u32) == strength)
                by (bit_vector)
                requires
                    c < 256,
                    strength < 16,
            ;
        },
        EffectKind::Glow => {
            assert((((c << 24u32) | (strength << 18u32) | 1u32) >> 24u32) == c
                && ((((c << 24u32) | (strength << 18u32) | 1u32) & 0x00FF_FFFFu32) >> 18u32) == strength)
                by (bit_vector)
                requires
                    c < 256,
                    strength < 64,
            ;
        },
        EffectKind::Translucent => {
            assert((((c << 24u32) | (strength << 16u32) | 1u32) >> 24u32) == c
                && ((((c << 24u32) | (strength << 16u32) | 1u32) & 0x00FF_FFFFu32) >> 16u32) == strength)
                by (bit_vector)
                requires
                    c < 256,
                    strength < 256,
            ;
        },
    }
}

} // verus!
