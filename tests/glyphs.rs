use pdf_render::collector::{collect_glyphs, new_collector};
use pdf_render::text::{em_to_nm, Features, GlyphPosition, TextPosition, PNUM, SMCP, TNUM};

fn glyph(id: u16, h_advance: i32) -> GlyphPosition {
    GlyphPosition { glyph_index: id, h_advance, v_advance: 0, h_offset: 0, v_offset: 0 }
}

#[test]
fn collector_starts_with_missing_glyph() {
    let c = new_collector();
    assert_eq!(c.iter().copied().collect::<Vec<u16>>(), vec![0]);
}

#[test]
fn local_ids_follow_first_seen_order() {
    let mut c = new_collector();
    let mut first = vec![glyph(12, 1), glyph(47, 2), glyph(12, 3), glyph(0, 4)];
    collect_glyphs(&mut c, &mut first);
    assert_eq!(first.iter().map(|g| g.glyph_index).collect::<Vec<u16>>(), vec![1, 2, 1, 0]);
    assert_eq!(first.iter().map(|g| g.h_advance).collect::<Vec<i32>>(), vec![1, 2, 3, 4]);
    let mut later = vec![glyph(47, 5), glyph(5, 6)];
    collect_glyphs(&mut c, &mut later);
    assert_eq!(later.iter().map(|g| g.glyph_index).collect::<Vec<u16>>(), vec![2, 3]);
    assert_eq!(c.iter().copied().collect::<Vec<u16>>(), vec![0, 12, 47, 5]);
}

#[test]
fn collecting_nothing_changes_nothing() {
    let mut c = new_collector();
    let mut none: Vec<GlyphPosition> = vec![];
    collect_glyphs(&mut c, &mut none);
    assert_eq!(c.len(), 1);
}

#[test]
fn shaped_text_is_measured() {
    let t = TextPosition::from_shaped(2048, 1900, -500, &vec![(3, 1000, 0, 0, 0), (4, -200, 0, 10, 20)]);
    assert_eq!(t.units_per_em, 2048);
    assert_eq!(t.width, 800);
    assert_eq!(t.height, 2400);
    assert_eq!(t.depth, 500);
    assert_eq!(t.ascent(), 1900);
    assert_eq!(t.positions[1], GlyphPosition { glyph_index: 4, h_advance: -200, v_advance: 0, h_offset: 10, v_offset: 20 });
}

#[test]
fn font_units_convert_to_nanometres() {
    // half an em of a 12 pt font is 6 pt, 2.1166 mm
    assert_eq!(em_to_nm(500, 1000, 12_000, 1000), 2_116_666);
    assert_eq!(em_to_nm(-500, 1000, 12_000, 1000), -2_116_666);
    // doubled by a scaling of 200 %
    assert_eq!(em_to_nm(500, 1000, 12_000, 2000), 4_233_333);
    assert_eq!(em_to_nm(0, 1000, 12_000, 1000), 0);
}

#[test]
fn glyph_rests_flip_vertical_advance() {
    let g = GlyphPosition { glyph_index: 1, h_advance: 600, v_advance: 100, h_offset: 50, v_offset: 20 };
    assert_eq!(g.h_advance_rest(), 550);
    assert_eq!(g.v_advance_rest(), -120);
}

#[test]
fn features_collect_tags() {
    let f = Features::empty().pnum().tnum().smcp();
    assert_eq!(f.tags, vec![PNUM, TNUM, SMCP]);
}
