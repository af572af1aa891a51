use minerust::colors::{average_rgb, face_colors, texture_average, texture_candidates, tint, tint_kind, Face, TintKind};

#[test]
fn average_skips_transparent_pixels() {
    let px = [10, 20, 30, 255, 20, 40, 60, 255, 200, 200, 200, 3, 0, 0, 0, 15];
    assert_eq!(average_rgb(&px, 4, 2, 2), Some([15, 30, 45]));
    assert_eq!(average_rgb(&[0, 0, 0, 0], 4, 1, 1), None);
}

#[test]
fn average_samples_the_first_square_frame_only() {
    // A 1-wide strip of two RGB frames: only the first row counts.
    let px = [100, 100, 100, 0, 0, 0];
    assert_eq!(average_rgb(&px, 3, 1, 2), Some([100, 100, 100]));
    // Gray with alpha, and plain gray.
    assert_eq!(average_rgb(&[80, 255, 40, 255], 2, 2, 1), Some([60, 60, 60]));
    assert_eq!(average_rgb(&[9, 11], 1, 2, 1), Some([10, 10, 10]));
}

#[test]
fn tints_scale_by_255() {
    assert_eq!(tint(Some([255, 255, 255]), [72, 145, 58]), [72, 145, 58]);
    assert_eq!(tint(None, [72, 145, 58]), [35, 72, 28]);
    assert_eq!(tint(Some([100, 0, 255]), [255, 255, 0]), [100, 0, 0]);
}

fn png_bytes(w: u32, h: u32, color: png::ColorType, data: &[u8]) -> Vec<u8> {
    let mut out = Vec::new();
    {
        let mut enc = png::Encoder::new(&mut out, w, h);
        enc.set_color(color);
        enc.set_depth(png::BitDepth::Eight);
        let mut wr = enc.write_header().unwrap();
        wr.write_image_data(data).unwrap();
    }
    out
}

#[test]
fn texture_average_decodes_the_png() {
    let rgba = png_bytes(2, 1, png::ColorType::Rgba, &[10, 20, 30, 255, 30, 40, 50, 255]);
    assert_eq!(texture_average(&rgba), Some([20, 30, 40]));
    let clear = png_bytes(1, 1, png::ColorType::Rgba, &[9, 9, 9, 0]);
    assert_eq!(texture_average(&clear), None);
    let gray = png_bytes(1, 1, png::ColorType::Grayscale, &[77]);
    assert_eq!(texture_average(&gray), Some([77, 77, 77]));
    assert_eq!(texture_average(b"not a png at all"), None);
}

#[test]
fn texture_candidates_follow_the_name_rules() {
    assert_eq!(texture_candidates("stone", Face::Top), vec!["stone_top", "stone", "stone_side"]);
    assert_eq!(texture_candidates("stone", Face::Bottom), vec!["stone_bottom", "stone", "stone_side", "stone_top"]);
    assert_eq!(
        texture_candidates("stripped_oak_wood", Face::Side),
        vec!["stripped_oak_wood_side", "stripped_oak_wood", "stripped_oak_wood_top", "stripped_oak_log", "oak_log"]
    );
    assert_eq!(
        texture_candidates("warped_hyphae", Face::Top),
        vec!["warped_hyphae_top", "warped_hyphae", "warped_hyphae_side", "warped_stem", "warped_stem"]
    );
    assert_eq!(
        texture_candidates("infested_stone", Face::Top),
        vec!["infested_stone_top", "infested_stone", "infested_stone_side", "stone"]
    );
    assert_eq!(texture_candidates("water", Face::Side), vec!["water_side", "water", "water_top", "water_still"]);
    assert_eq!(texture_candidates("lava_cauldron", Face::Top)[3], "lava_still");
    assert_eq!(texture_candidates("magma_block", Face::Top)[3], "magma");
}

#[test]
fn tint_kinds_and_face_colors() {
    assert_eq!(tint_kind("water"), TintKind::Water);
    assert_eq!(tint_kind("bubble_column"), TintKind::Water);
    assert_eq!(tint_kind("grass_block"), TintKind::GrassTop);
    assert_eq!(tint_kind("oak_leaves"), TintKind::Foliage);
    assert_eq!(tint_kind("short_grass"), TintKind::Foliage);
    assert_eq!(tint_kind("fern"), TintKind::Foliage);
    assert_eq!(tint_kind("stone"), TintKind::Plain);
    let (t, s, b) = face_colors(TintKind::GrassTop, Some([255, 255, 255]), Some([10, 20, 30]), None);
    assert_eq!(t, [124, 189, 107]);
    assert_eq!(s, [10, 20, 30]);
    assert_eq!(b, [127, 127, 127]);
    let (t, _, _) = face_colors(TintKind::Water, None, None, None);
    assert_eq!(t, [127 * 63 / 255, 127 * 118 / 255, 127 * 201 / 255]);
}
