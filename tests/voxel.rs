use ctklr::voxel::{
    effect_kind_of, effect_modifier, encode_voxel, is_occupied, voxel_color, voxel_strength,
    EffectKind,
};

#[test]
fn effect_kinds_by_char() {
    assert_eq!(effect_kind_of('e'), Some(EffectKind::Emissive));
    assert_eq!(effect_kind_of('g'), Some(EffectKind::Glow));
    assert_eq!(effect_kind_of('t'), Some(EffectKind::Translucent));
    assert_eq!(effect_kind_of('x'), None);
    assert_eq!(effect_kind_of('E'), None);
}

#[test]
fn modifier_shifts() {
    assert_eq!(effect_modifier(EffectKind::Emissive, 3), 3 << 20);
    assert_eq!(effect_modifier(EffectKind::Glow, 3), 3 << 18);
    assert_eq!(effect_modifier(EffectKind::Translucent, 3), 3 << 16);
    // bits shifted past the top are lost
    assert_eq!(effect_modifier(EffectKind::Emissive, 0xFFF), 0xFFF0_0000);
    assert_eq!(effect_modifier(EffectKind::Emissive, 0x1000), 0);
}

#[test]
fn encode_exact_values() {
    assert_eq!(encode_voxel(0, 0), 1);
    assert_eq!(encode_voxel(5, 0), 0x0500_0001);
    assert_eq!(encode_voxel(255, 2 << 20), 0xFF20_0001);
    assert!(is_occupied(encode_voxel(0, 0)));
    assert!(!is_occupied(0));
    assert!(!is_occupied(0x0500_0000));
}

#[test]
fn packing_round_trip_values() {
    let kinds = [
        (EffectKind::Emissive, 16u32),
        (EffectKind::Glow, 64u32),
        (EffectKind::Translucent, 256u32),
    ];
    for (kind, capacity) in kinds {
        for color in [0u8, 1, 7, 128, 255] {
            for strength in [0u32, 1, capacity / 2, capacity - 1] {
                let code = encode_voxel(color, effect_modifier(kind, strength));
                assert_eq!(voxel_color(code), color);
                assert_eq!(voxel_strength(code, kind), strength);
                assert!(is_occupied(code));
            }
        }
    }
}

#[test]
fn strength_past_capacity_reaches_color_byte() {
    // an emissive strength of 16 sets bit 24, the low bit of the color byte
    let code = encode_voxel(2, effect_modifier(EffectKind::Emissive, 16));
    assert_eq!(voxel_color(code), 3);
}
