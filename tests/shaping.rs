use allsorts::binary::read::ReadScope;
use allsorts::font_data::FontData;
use indexmap::IndexSet;
use pdf_render::collector::new_collector;
use pdf_render::context::{DrawOp, RenderContext};
use pdf_render::error::Error;
use pdf_render::font::{FontSources, Fonts};
use pdf_render::geometry::{mm, Offset, Quad, Size};
use pdf_render::style::{FontStyle, Rgba, Style};
use pdf_render::text::Features;

const GLYPHS: u16 = 60;

fn be16(out: &mut Vec<u8>, v: u16) {
    out.extend_from_slice(&v.to_be_bytes());
}

fn be32(out: &mut Vec<u8>, v: u32) {
    out.extend_from_slice(&v.to_be_bytes());
}

/// Advance width of glyph `g` in the test font: distinct for every glyph.
fn advance(g: u16) -> u16 {
    500 + 10 * g
}

/// A TrueType font of empty glyphs: 'A'..'Z' map to glyphs 1..26 and
/// 'a'..'z' to glyphs 27..52.
fn test_font(units_per_em: u16) -> Vec<u8> {
    let mut head = Vec::new();
    be32(&mut head, 0x0001_0000);
    be32(&mut head, 0x0001_0000);
    be32(&mut head, 0);
    be32(&mut head, 0x5F0F_3CF5);
    be16(&mut head, 0);
    be16(&mut head, units_per_em);
    head.extend_from_slice(&[0; 16]);
    head.extend_from_slice(&[0; 8]);
    be16(&mut head, 0);
    be16(&mut head, 3);
    be16(&mut head, 2);
    be16(&mut head, 1);
    be16(&mut head, 0);

    let mut hhea = Vec::new();
    be32(&mut hhea, 0x0001_0000);
    be16(&mut hhea, 800);
    be16(&mut hhea, (-200i16) as u16);
    be16(&mut hhea, 0);
    be16(&mut hhea, advance(GLYPHS - 1));
    hhea.extend_from_slice(&[0; 6]);
    be16(&mut hhea, 1);
    hhea.extend_from_slice(&[0; 12]);
    be16(&mut hhea, 0);
    be16(&mut hhea, GLYPHS);

    let mut maxp = Vec::new();
    be32(&mut maxp, 0x0000_5000);
    be16(&mut maxp, GLYPHS);

    let mut hmtx = Vec::new();
    for g in 0..GLYPHS {
        be16(&mut hmtx, advance(g));
        be16(&mut hmtx, 0);
    }

    let mut loca = Vec::new();
    for _ in 0..=GLYPHS {
        be32(&mut loca, 0);
    }

    let mut post = Vec::new();
    be32(&mut post, 0x0003_0000);
    post.extend_from_slice(&[0; 28]);

    let segments: [(u16, u16, u16); 3] = [(0x41, 0x5A, 1), (0x61, 0x7A, 27), (0xFFFF, 0xFFFF, 0)];
    let mut sub = Vec::new();
    be16(&mut sub, 4);
    be16(&mut sub, (16 + 8 * segments.len()) as u16);
    be16(&mut sub, 0);
    be16(&mut sub, (2 * segments.len()) as u16);
    be16(&mut sub, 4);
    be16(&mut sub, 1);
    be16(&mut sub, 2);
    for s in segments {
        be16(&mut sub, s.1);
    }
    be16(&mut sub, 0);
    for s in segments {
        be16(&mut sub, s.0);
    }
    for s in segments {
        be16(&mut sub, if s.0 == 0xFFFF { 1 } else { s.2.wrapping_sub(s.0) });
    }
    for _ in segments {
        be16(&mut sub, 0);
    }
    let mut cmap = Vec::new();
    be16(&mut cmap, 0);
    be16(&mut cmap, 1);
    be16(&mut cmap, 3);
    be16(&mut cmap, 1);
    be32(&mut cmap, 12);
    cmap.extend_from_slice(&sub);

    let glyf: Vec<u8> = Vec::new();
    let tables: Vec<(&[u8; 4], Vec<u8>)> = vec![
        (b"cmap", cmap),
        (b"glyf", glyf),
        (b"head", head),
        (b"hhea", hhea),
        (b"hmtx", hmtx),
        (b"loca", loca),
        (b"maxp", maxp),
        (b"post", post),
    ];
    let mut font = Vec::new();
    be32(&mut font, 0x0001_0000);
    be16(&mut font, tables.len() as u16);
    be16(&mut font, 128);
    be16(&mut font, 3);
    be16(&mut font, (tables.len() as u16) * 16 - 128);
    let mut offset = 12 + 16 * tables.len();
    let mut body = Vec::new();
    for (tag, data) in &tables {
        font.extend_from_slice(*tag);
        be32(&mut font, 0);
        be32(&mut font, offset as u32);
        be32(&mut font, data.len() as u32);
        body.extend_from_slice(data);
        while body.len() % 4 != 0 {
            body.push(0);
        }
        offset = 12 + 16 * tables.len() + body.len();
    }
    font.extend_from_slice(&body);
    font
}

fn fonts_with_test_font() -> Fonts {
    let mut sources = FontSources::new();
    sources.add_owned("Test", test_font(1000)).unwrap();
    Fonts::new(sources)
}

#[test]
fn test_font_is_parsed() {
    let mut fonts = fonts_with_test_font();
    assert!(fonts.get("Test").is_ok());
    assert!(fonts.get("Test").is_ok());
}

#[test]
fn text_is_shaped_and_measured() {
    let mut fonts = fonts_with_test_font();
    let font = fonts.get("Test").unwrap();
    let t = font.typeset("AB", &Features::empty()).unwrap();
    assert_eq!(t.units_per_em, 1000);
    assert_eq!(t.positions.iter().map(|p| p.glyph_index).collect::<Vec<u16>>(), vec![1, 2]);
    assert_eq!(t.positions.iter().map(|p| p.h_advance).collect::<Vec<i32>>(), vec![510, 520]);
    assert_eq!(t.width, 1030);
    assert_eq!(t.height, 1000);
    assert_eq!(t.depth, 200);
}

#[test]
fn typeset_collect_rewrites_to_local_ids() {
    let mut fonts = fonts_with_test_font();
    let font = fonts.get("Test").unwrap();
    let mut collector = new_collector();
    let t = font.typeset_collect(&mut collector, "BAB", &Features::empty()).unwrap();
    assert_eq!(t.positions.iter().map(|p| p.glyph_index).collect::<Vec<u16>>(), vec![1, 2, 1]);
    assert_eq!(collector.iter().copied().collect::<Vec<u16>>(), vec![0, 2, 1]);
    let t = font.typeset_collect(&mut collector, "Ca", &Features::empty()).unwrap();
    assert_eq!(t.positions.iter().map(|p| p.glyph_index).collect::<Vec<u16>>(), vec![3, 4]);
    assert_eq!(collector.iter().copied().collect::<Vec<u16>>(), vec![0, 2, 1, 3, 27]);
}

#[test]
fn subset_keeps_glyph_order() {
    let mut fonts = fonts_with_test_font();
    let font = fonts.get("Test").unwrap();
    let mut collector = IndexSet::new();
    for g in [0u16, 12, 47] {
        collector.insert(g);
    }
    let blob = font.subset(&collector).unwrap().unwrap();
    let data = ReadScope::new(&blob).read::<FontData<'_>>().unwrap();
    let mut subset = allsorts::Font::new(data.table_provider(0).unwrap()).unwrap();
    assert_eq!(subset.num_glyphs(), 3);
    for (local, font_glyph) in [0u16, 12, 47].into_iter().enumerate() {
        assert_eq!(subset.horizontal_advance(local as u16), Some(advance(font_glyph)));
    }
}

#[test]
fn empty_collector_has_no_subset() {
    let mut fonts = fonts_with_test_font();
    let font = fonts.get("Test").unwrap();
    assert_eq!(font.subset(&IndexSet::new()), Ok(None));
}

#[test]
fn replaced_source_is_parsed_again() {
    let mut fonts = fonts_with_test_font();
    let before = fonts.get("Test").unwrap().typeset("A", &Features::empty()).unwrap();
    assert_eq!(before.units_per_em, 1000);
    fonts.replace("Test", test_font(2048)).unwrap();
    let after = fonts.get("Test").unwrap().typeset("A", &Features::empty()).unwrap();
    assert_eq!(after.units_per_em, 2048);
}

#[test]
fn document_fonts_are_finalized_then_emitted() {
    let mut ctx = RenderContext::new(Quad::empty(), Size::fixed(mm(210), mm(297)), fonts_with_test_font());
    let style = Style::with_font(FontStyle::new("Test", 12_000, Some(Features::empty().pnum())));
    let text = ctx.typeset(&style, "BA").unwrap();
    assert_eq!(text.positions.iter().map(|p| p.glyph_index).collect::<Vec<u16>>(), vec![1, 2]);
    let subsets = ctx.complete_fonts().unwrap();
    assert_eq!(subsets.len(), 1);
    assert!(matches!(ctx.typeset(&style, "A"), Err(Error::FontFinalized(n)) if n == "Test"));
    ctx.text(&Offset::new(mm(20), mm(20)), &style, &text, true).unwrap();
    let ops = ctx.ops();
    assert!(matches!(ops[0], DrawOp::BeginText));
    assert!(matches!(ops[1], DrawOp::SetFont { font_ref: 0, size: 12_000 }));
    assert!(matches!(ops[2], DrawOp::SetTextCursor { x, y } if x == mm(20) && y == mm(277)));
    assert!(matches!(ops[3], DrawOp::SetTextScaling(1000)));
    assert!(matches!(ops[4], DrawOp::WriteGlyph(1)));
    assert!(matches!(ops[5], DrawOp::SetTextCursor { x: 2_201_333, y: 0 }));
    assert!(matches!(ops[6], DrawOp::WriteGlyph(2)));
    assert!(matches!(ops[8], DrawOp::SetTextScaling(1000)));
    assert!(matches!(ops[9], DrawOp::EndText));
    assert_eq!(ops.len(), 10);
}

#[test]
fn coloured_text_restores_black() {
    let mut ctx = RenderContext::new(Quad::empty(), Size::fixed(mm(210), mm(297)), fonts_with_test_font());
    let mut style = Style::with_font(FontStyle::new("Test", 10_000, None));
    let text = ctx.typeset(&style, "A").unwrap();
    ctx.complete_fonts().unwrap();
    style.color = Some(Rgba::new(200, 0, 0, 255));
    ctx.text(&Offset::new(0, 0), &style, &text, false).unwrap();
    let ops = ctx.ops();
    assert!(matches!(ops[1], DrawOp::SetFillColor(c) if c == Rgba::new(200, 0, 0, 255)));
    assert!(matches!(ops[ops.len() - 2], DrawOp::SetFillColor(c) if c == Rgba::black()));
}
