use tilemap_core::imagegen::TextureAtlas;

#[test]
fn new_atlas_is_zeroed() {
    let atlas = TextureAtlas::new(2, 8, 2);
    for gy in 0..16 {
        for gx in 0..16 {
            assert_eq!(atlas.read_texel(gx, gy), 0);
        }
    }
}

#[test]
fn word_count_rounds_up_per_depth() {
    // 2x2 textures of 8x8 texels: 256 texels in all.
    let depths: [u32; 5] = [1, 2, 4, 8, 16];
    let expected_words = [8usize, 16, 32, 64, 128];
    for (i, &bits) in depths.iter().enumerate() {
        let atlas = TextureAtlas::new(2, 8, bits);
        assert_eq!(atlas.as_bytes().len(), expected_words[i] * 4);
    }
    // A full word per texel.
    let atlas = TextureAtlas::new(2, 8, 32);
    assert_eq!(atlas.as_bytes().len(), 256 * 4);
    // An atlas whose bit total is no whole number of words: 3x3 texels at
    // 2 bits is 18 bits, one word.
    let atlas = TextureAtlas::new(1, 3, 2);
    assert_eq!(atlas.as_bytes().len(), 4);
}

#[test]
fn make_mask_isolated_fields() {
    assert_eq!(TextureAtlas::make_mask(0, 1), 0x1);
    assert_eq!(TextureAtlas::make_mask(3, 1), 0x8);
    assert_eq!(TextureAtlas::make_mask(0, 2), 0x3);
    assert_eq!(TextureAtlas::make_mask(4, 8), 0xff0);
    assert_eq!(TextureAtlas::make_mask(30, 2), 0xc000_0000);
    assert_eq!(TextureAtlas::make_mask(16, 16), 0xffff_0000);
    assert_eq!(TextureAtlas::make_mask(0, 32), 0xffff_ffff);
}

#[test]
fn write_read_round_trips_low_bits() {
    let depths: [u32; 5] = [1, 2, 4, 8, 16];
    for &bits in depths.iter() {
        let mut atlas = TextureAtlas::new(2, 8, bits);
        let mask = if bits >= 32 { u32::MAX } else { (1u32 << bits) - 1 };
        atlas.write_texel(3, 5, 0xabcd_1234);
        assert_eq!(atlas.read_texel(3, 5), 0xabcd_1234 & mask);
        atlas.write_texel(0, 0, u32::MAX);
        assert_eq!(atlas.read_texel(0, 0), mask);
    }
    let mut atlas = TextureAtlas::new(2, 8, 32);
    atlas.write_texel(15, 15, 0xdead_beef);
    assert_eq!(atlas.read_texel(15, 15), 0xdead_beef);
}

#[test]
fn write_leaves_word_neighbours_untouched() {
    // At 2 bits per texel, 16 texels share each word.
    let mut atlas = TextureAtlas::new(2, 8, 2);
    for gx in 0..16 {
        atlas.write_texel(gx, 0, (gx as u32) & 0x3);
    }
    atlas.write_texel(7, 0, 0x1);
    for gx in 0..16 {
        let expected = if gx == 7 { 0x1 } else { (gx as u32) & 0x3 };
        assert_eq!(atlas.read_texel(gx, 0), expected);
    }
}

#[test]
fn generate_tile_changes_only_its_tile() {
    let mut atlas = TextureAtlas::new(2, 8, 2);
    // Lay down a known pattern everywhere.
    for gy in 0..16 {
        for gx in 0..16 {
            atlas.write_texel(gx, gy, ((gx + gy) as u32) & 0x3);
        }
    }
    atlas.generate_tile_tex(1, 0);
    let mut outside_checksum: u64 = 0;
    for gy in 0..16 {
        for gx in 0..16 {
            let texel = atlas.read_texel(gx, gy);
            let in_tile = gx >= 8 && gx < 16 && gy < 8;
            if in_tile {
                // Freshly drawn values are masked to the texel depth.
                assert!(texel <= 0x3);
            } else {
                assert_eq!(texel, ((gx + gy) as u32) & 0x3);
                outside_checksum += texel as u64;
            }
        }
    }
    let expected: u64 = (0..16)
        .flat_map(|gy: usize| (0..16).map(move |gx: usize| (gx, gy)))
        .filter(|&(gx, gy)| !(gx >= 8 && gy < 8))
        .map(|(gx, gy)| (((gx + gy) as u32) & 0x3) as u64)
        .sum();
    assert_eq!(outside_checksum, expected);
}

#[test]
fn regenerating_twice_keeps_other_tiles_stable() {
    let mut atlas = TextureAtlas::new(2, 8, 4);
    for gy in 0..16 {
        for gx in 0..16 {
            atlas.write_texel(gx, gy, ((gx * 3 + gy) as u32) & 0xf);
        }
    }
    atlas.generate_tile_tex(0, 1);
    atlas.generate_tile_tex(0, 1);
    for gy in 0..16 {
        for gx in 0..16 {
            let texel = atlas.read_texel(gx, gy);
            let in_tile = gx < 8 && gy >= 8;
            if in_tile {
                assert!(texel <= 0xf);
            } else {
                assert_eq!(texel, ((gx * 3 + gy) as u32) & 0xf);
            }
        }
    }
}

#[test]
fn as_bytes_is_little_endian_per_word() {
    // 2x2 texels at 8 bits: the four texels fill exactly one word.
    let mut atlas = TextureAtlas::new(1, 2, 8);
    atlas.write_texel(0, 0, 0x11);
    atlas.write_texel(1, 0, 0x22);
    atlas.write_texel(0, 1, 0x33);
    atlas.write_texel(1, 1, 0x44);
    assert_eq!(atlas.as_bytes(), vec![0x11, 0x22, 0x33, 0x44]);
}
