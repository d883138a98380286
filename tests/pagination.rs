use pdf_render::context::{DrawOp, NewPageOptions, RenderContext};
use pdf_render::error::Error;
use pdf_render::geometry::{mm, Offset, Quad, Size};
use pdf_render::style::{FontStyle, Rgba, Stroke, Style};
use pdf_render::text::{GlyphPosition, TextPosition};
use pdf_render::{new_font_sources, new_fonts};

fn context(width: i64, height: i64, margin: Quad) -> RenderContext {
    RenderContext::new(margin, Size::fixed(width, height), new_fonts(new_font_sources()))
}

#[test]
fn window_is_established_at_start() {
    let ctx = context(500, 700, Quad::empty());
    assert_eq!(ctx.page_start(), Some(Offset::new(0, 0)));
    assert_eq!(ctx.page_end(), Some(Offset::new(500, 700)));
}

#[test]
fn placement_past_window_end_breaks_page() {
    let mut ctx = context(500, 700, Quad::empty());
    assert!(ctx.check_page_break(680, 30));
    assert_eq!(ctx.ops().len(), 1);
    assert!(matches!(ctx.ops()[0], DrawOp::NewPage { width: 500, height: 700 }));
    assert_eq!(ctx.page_start(), Some(Offset::new(0, 680)));
    assert_eq!(ctx.page_end(), Some(Offset::new(500, 1380)));
}

#[test]
fn placement_inside_window_does_not_break() {
    let mut ctx = context(500, 700, Quad::empty());
    assert!(!ctx.check_page_break(650, 30));
    assert!(ctx.ops().is_empty());
    assert_eq!(ctx.page_start(), Some(Offset::new(0, 0)));
}

#[test]
fn placement_ending_at_window_end_fits() {
    let mut ctx = context(500, 700, Quad::empty());
    assert!(!ctx.check_page_break(670, 30));
    assert!(!ctx.check_page_break(669, 30));
}

#[test]
fn placement_one_past_window_end_breaks() {
    let mut ctx = context(500, 700, Quad::empty());
    assert!(ctx.check_page_break(671, 30));
}

#[test]
fn window_end_accounts_for_margins() {
    let ctx = context(500, 700, Quad { top: 10, right: 20, bottom: 30, left: 40 });
    assert_eq!(ctx.page_end(), Some(Offset::new(440, 660)));
}

#[test]
fn forced_new_page_clears_window_until_next_placement() {
    let mut ctx = context(500, 700, Quad::empty());
    let options = NewPageOptions { must_be_in_page: None, margin: None, size: Some(Size::fixed(700, 500)) };
    assert!(ctx.new_page(Some(options)));
    assert_eq!(ctx.page_start(), None);
    assert!(matches!(ctx.ops()[0], DrawOp::NewPage { width: 700, height: 500 }));
    assert!(!ctx.check_page_break(100, 30));
    assert_eq!(ctx.page_start(), Some(Offset::new(0, 100)));
    assert_eq!(ctx.page_end(), Some(Offset::new(700, 600)));
}

#[test]
fn forced_new_page_takes_the_options_margin() {
    let mut ctx = context(500, 700, Quad::empty());
    let options = NewPageOptions { must_be_in_page: None, margin: Some(Quad::square(10)), size: None };
    assert!(ctx.new_page(Some(options)));
    assert_eq!(ctx.page_margin(), Quad::square(10));
    assert_eq!(ctx.page_size(), Size::fixed(500, 700));
    assert!(ctx.new_page(None));
    assert_eq!(ctx.page_margin(), Quad::square(10));
}

#[test]
fn new_page_with_content_that_must_fit_decides_like_a_check() {
    let mut ctx = context(500, 700, Quad::empty());
    let fits = NewPageOptions { must_be_in_page: Some((650, 30)), margin: None, size: None };
    assert!(!ctx.new_page(Some(fits)));
    let overflows = NewPageOptions { must_be_in_page: Some((690, 30)), margin: None, size: None };
    assert!(ctx.new_page(Some(overflows)));
}

#[test]
fn transform_example_on_a4_page() {
    let ctx = context(mm(210), mm(297), Quad::empty());
    let out = ctx.output_position(&Offset::new(mm(10), mm(20)));
    assert_eq!(out, Offset::new(mm(10), mm(277)));
}

#[test]
fn transform_round_trips() {
    let ctx = context(mm(210), mm(297), Quad::square(mm(10)));
    for c in [Offset::new(mm(10), mm(20)), Offset::new(0, 0), Offset::new(-mm(5), mm(400)), Offset::new(123_456, 987_654)] {
        let out = ctx.output_position(&c);
        assert_eq!(ctx.content_position(&out), c);
    }
}

#[test]
fn transform_applies_margin_and_window_start() {
    let mut ctx = context(mm(210), mm(297), Quad::square(mm(10)));
    assert!(ctx.check_page_break(mm(300), mm(10)));
    let out = ctx.output_position(&Offset::new(mm(5), mm(320)));
    assert_eq!(out, Offset::new(mm(15), mm(297) - mm(20) - mm(10)));
}

#[test]
fn line_is_drawn_in_output_coordinates() {
    let mut ctx = context(mm(210), mm(297), Quad::empty());
    let stroke = Stroke { color: Rgba::new(1, 2, 3, 255), thickness: 500 };
    ctx.line(&Offset::new(mm(10), mm(20)), &Offset::new(mm(30), mm(20)), &stroke);
    assert_eq!(ctx.ops().len(), 1);
    match &ctx.ops()[0] {
        DrawOp::Line { points, color, thickness } => {
            assert_eq!(points, &vec![Offset::new(mm(10), mm(277)), Offset::new(mm(30), mm(277))]);
            assert_eq!(*color, Rgba::new(1, 2, 3, 255));
            assert_eq!(*thickness, 500);
        }
        _ => panic!("expected a line"),
    }
}

#[test]
fn debug_frame_only_when_enabled() {
    let mut ctx = context(mm(210), mm(297), Quad::empty());
    ctx.debug_frame(&Offset::new(0, 0), &Size::fixed(mm(10), mm(10)));
    assert!(ctx.ops().is_empty());
    let mut ctx = ctx.with_debug_frame(true);
    ctx.debug_frame(&Offset::new(0, 0), &Size::fixed(mm(10), mm(10)));
    match &ctx.ops()[0] {
        DrawOp::Line { points, color, .. } => {
            assert_eq!(points.len(), 5);
            assert_eq!(points[0], Offset::new(0, mm(297)));
            assert_eq!(points[2], Offset::new(mm(10), mm(287)));
            assert_eq!(points[4], points[0]);
            assert_eq!(*color, Rgba::new(240, 240, 240, 255));
        }
        _ => panic!("expected a line"),
    }
}

fn one_glyph() -> TextPosition {
    TextPosition {
        units_per_em: 1000,
        width: 500,
        height: 1200,
        depth: 200,
        positions: vec![GlyphPosition { glyph_index: 1, h_advance: 500, v_advance: 0, h_offset: 0, v_offset: 0 }],
    }
}

#[test]
fn text_in_font_that_was_never_finalized_fails() {
    let mut ctx = context(mm(210), mm(297), Quad::empty());
    let style = Style::with_font(FontStyle::new("LatoReg", 12_000, None));
    let r = ctx.text(&Offset::new(mm(20), mm(20)), &style, &one_glyph(), true);
    assert_eq!(r, Err(Error::FontNotFinalized("LatoReg".to_string())));
    assert!(ctx.ops().is_empty());
}

#[test]
fn text_without_font_draws_nothing() {
    let mut ctx = context(mm(210), mm(297), Quad::empty());
    let r = ctx.text(&Offset::new(mm(20), mm(20)), &Style::new_default(), &one_glyph(), true);
    assert_eq!(r, Ok(()));
    assert!(ctx.ops().is_empty());
}

#[test]
fn typeset_without_font_name_is_unknown_font() {
    let mut ctx = context(mm(210), mm(297), Quad::empty());
    let r = ctx.typeset(&Style::new_default(), "Text");
    assert!(matches!(r, Err(Error::UnknownFont(_))));
}

#[test]
fn typeset_with_unregistered_font_is_unknown_font() {
    let mut ctx = context(mm(210), mm(297), Quad::empty());
    let style = Style::with_font(FontStyle::new("Missing", 10_000, None));
    let r = ctx.typeset(&style, "Text");
    assert_eq!(r, Err(Error::UnknownFont("Missing".to_string())));
    assert_eq!(ctx.complete_fonts(), Err(Error::UnknownFont("Missing".to_string())));
}

#[test]
fn finalizing_no_fonts_embeds_nothing() {
    let mut ctx = context(mm(210), mm(297), Quad::empty());
    assert_eq!(ctx.complete_fonts(), Ok(vec![]));
}
