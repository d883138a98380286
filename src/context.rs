//! The pagination and coordinate engine, and the drawing operations it
//! emits for text, lines and debug frames.
//!
//! Content coordinates have their origin at the top left of the content
//! window (inside the margins) and grow downwards; output coordinates have
//! their origin at the bottom left of the page and grow upwards. The
//! operations are written to the document by the caller, in order.
use vstd::prelude::*;

use crate::error::Error;
use crate::font::Fonts;
use crate::geometry::{Offset, Quad, Size, MAX_COORD};
use crate::render_fonts::{complete_post, typeset_post, RenderFonts};
use crate::style::{opt_view, FontStyle, Rgba, Stroke, Style};
use crate::text::{em_len, em_to_nm, Features, GlyphPosition, TextPosition};

verus! {

/// The largest magnitude of a position handed to the page transform.
pub const MAX_SHIFTED: i64 = 2_000_000_000_000_000_000;

/// Horizontal scaling of one to one, in per mille.
pub const UNSCALED: u32 = 1000;

/// Thickness of debug frames, in millipoints.
pub const DEBUG_FRAME_THICKNESS: u32 = 250;

/// One drawing operation on the output document. Positions and lengths are
/// in nanometres, font sizes and thicknesses in millipoints.
#[derive(Debug, Clone)]
pub enum DrawOp {
    /// Starts a new page of this size; later operations draw on it.
    NewPage { width: i64, height: i64 },
    /// Strokes the polyline through `points` (output coordinates).
    Line { points: Vec<Offset>, color: Rgba, thickness: u32 },
    BeginText,
    SetFillColor(Rgba),
    /// Selects the embedded font with this handle, at this size.
    SetFont { font_ref: usize, size: u32 },
    /// Moves the text cursor: to the start of the run at first, then
    /// relative to the start of the current line.
    SetTextCursor { x: i64, y: i64 },
    /// Horizontal scaling, in per mille.
    SetTextScaling(u32),
    /// Draws the glyph with this local id of the current font.
    WriteGlyph(u16),
    EndText,
}

/// Options for a new page: a placement that must fit on the current page,
/// or else a new margin or size for the next page.
#[derive(Debug, Clone, Copy)]
pub struct NewPageOptions {
    /// Offset and height of content that must fit on the page.
    pub must_be_in_page: Option<(i64, i64)>,
    pub margin: Option<Quad>,
    pub size: Option<Size>,
}

/// A position relative to the content window: moved by the window's start.
pub open spec fn window_relative(start: Option<Offset>, c: (int, int)) -> (int, int) {
    match start {
        Some(s) => (c.0 - s.x, c.1 - s.y),
        None => c,
    }
}

/// The page transform: relative to the window, shifted by the margin, and
/// flipped against the page height.
pub open spec fn to_output(margin: Quad, size: Size, start: Option<Offset>, c: (int, int)) -> (int, int) {
    let p = window_relative(start, c);
    (p.0 + margin.left, size.height - (p.1 + margin.top))
}

/// The inverse of the page transform.
pub open spec fn from_output(margin: Quad, size: Size, start: Option<Offset>, o: (int, int)) -> (int, int) {
    let p = (o.0 - margin.left, size.height - o.1 - margin.top);
    match start {
        Some(s) => (p.0 + s.x, p.1 + s.y),
        None => p,
    }
}

/// The end of the content window that starts at `start`.
pub open spec fn window_end(margin: Quad, size: Size, start: Offset) -> (int, int) {
    (start.x + size.width - (margin.left + margin.right), start.y + size.height - (margin.top
        + margin.bottom))
}

/// Whether content at `offset` of `height` overflows the window ending at
/// `end`: it must end at or before the window's end.
pub open spec fn overflows(end: Option<Offset>, offset: int, height: int) -> bool {
    end matches Some(e) && offset + height > e.y
}

pub open spec fn near(v: int) -> bool {
    -MAX_SHIFTED <= v <= MAX_SHIFTED
}

/// Converting a position to output coordinates and back gives the position.
pub proof fn lemma_transform_round_trip(margin: Quad, size: Size, start: Option<Offset>, c: (int, int))
    ensures
        from_output(margin, size, start, to_output(margin, size, start, c)) == c,
{
}

/// The operations that place one glyph: a move to its offset where it has
/// one, the glyph, and the move to where the next glyph starts.
pub open spec fn glyph_ops(g: GlyphPosition, units_per_em: int, size: int, scale: int) -> Seq<DrawOp> {
    let offset = if g.h_offset != 0 || g.v_offset != 0 {
        seq![
            DrawOp::SetTextCursor {
                x: em_len(g.h_offset as int, units_per_em, size, scale) as i64,
                y: em_len(g.v_offset as int, units_per_em, size, UNSCALED as int) as i64,
            },
        ]
    } else {
        Seq::empty()
    };
    offset + seq![
        DrawOp::WriteGlyph(g.glyph_index),
        DrawOp::SetTextCursor {
            x: em_len(g.h_rest(), units_per_em, size, scale) as i64,
            y: em_len(g.v_rest(), units_per_em, size, UNSCALED as int) as i64,
        },
    ]
}

/// The operations that place the glyphs, in order.
pub open spec fn glyphs_ops(gs: Seq<GlyphPosition>, units_per_em: int, size: int, scale: int) -> Seq<DrawOp>
    decreases gs.len(),
{
    if gs.len() == 0 {
        Seq::empty()
    } else {
        glyphs_ops(gs.drop_last(), units_per_em, size, scale) + glyph_ops(
            gs.last(),
            units_per_em,
            size,
            scale,
        )
    }
}

/// Whether a run is drawn in a colour of its own: one that is set and not
/// the default black.
pub open spec fn own_color(color: Option<Rgba>) -> bool {
    color matches Some(c) && c != (Rgba { r: 0, g: 0, b: 0, a: 255 })
}

/// The operations of a text run: the colour where the run has its own, the
/// font, the cursor at the baseline, the scaling, the glyphs, and then the
/// scaling and the colour restored.
pub open spec fn run_ops(
    font_ref: usize,
    size: u32,
    scale: u32,
    color: Option<Rgba>,
    x: i64,
    y: i64,
    t: TextPosition,
) -> Seq<DrawOp> {
    let set_color = if own_color(color) {
        seq![DrawOp::SetFillColor(color->Some_0)]
    } else {
        Seq::empty()
    };
    let reset_color = if own_color(color) {
        seq![DrawOp::SetFillColor(Rgba { r: 0, g: 0, b: 0, a: 255 })]
    } else {
        Seq::empty()
    };
    seq![DrawOp::BeginText] + set_color + seq![
        DrawOp::SetFont { font_ref, size },
        DrawOp::SetTextCursor { x, y },
        DrawOp::SetTextScaling(scale),
    ] + glyphs_ops(t.positions@, t.units_per_em as int, size as int, scale as int) + seq![
        DrawOp::SetTextScaling(UNSCALED),
    ] + reset_color + seq![DrawOp::EndText]
}

/// The state of the renderer: the fonts of the document, the page geometry
/// and content window, the default style and the operations emitted so far.
pub struct RenderContext {
    fonts: RenderFonts,
    ops: Vec<DrawOp>,
    page_margin: Quad,
    page_size: Size,
    page_start: Option<Offset>,
    page_end: Option<Offset>,
    style: Style,
    debug_frame: bool,
    debug_page_breaks: bool,
}

impl RenderContext {
    pub closed spec fn wf(&self) -> bool {
        &&& self.fonts.wf()
        &&& self.page_margin.wf()
        &&& self.page_size.wf()
        &&& self.style.wf()
        &&& self.page_start is Some == self.page_end is Some
        &&& self.page_start matches Some(s) ==> s.wf() && s.x == 0 && (self.page_end matches Some(
            e,
        ) && (e.x as int, e.y as int) == window_end(self.page_margin, self.page_size, s))
    }

    pub closed spec fn margin(&self) -> Quad {
        self.page_margin
    }

    pub closed spec fn size(&self) -> Size {
        self.page_size
    }

    /// The start of the content window, once established.
    pub closed spec fn window_start(&self) -> Option<Offset> {
        self.page_start
    }

    /// The end of the content window, once established.
    pub closed spec fn window_end(&self) -> Option<Offset> {
        self.page_end
    }

    /// The operations emitted so far.
    pub closed spec fn emitted(&self) -> Seq<DrawOp> {
        self.ops@
    }

    pub closed spec fn render_fonts(&self) -> RenderFonts {
        self.fonts
    }

    pub closed spec fn default_style(&self) -> Style {
        self.style
    }

    pub closed spec fn frames(&self) -> bool {
        self.debug_frame
    }

    pub closed spec fn page_breaks(&self) -> bool {
        self.debug_page_breaks
    }

    /// The content window, where established, spans the page inside the
    /// margins from its start.
    pub open spec fn window_consistent(&self) -> bool {
        &&& self.window_start() is Some == self.window_end() is Some
        &&& self.window_start() matches Some(s) ==> (self.window_end() matches Some(e) && (
            e.x as int,
            e.y as int,
        ) == window_end(self.margin(), self.size(), s))
    }

    /// The same page geometry, content window and operations.
    pub open spec fn same_pages(&self, other: RenderContext) -> bool {
        &&& self.margin() == other.margin()
        &&& self.size() == other.size()
        &&& self.window_start() == other.window_start()
        &&& self.window_end() == other.window_end()
        &&& self.emitted() == other.emitted()
    }

    /// The same fonts, style and flags.
    pub open spec fn same_setup(&self, other: RenderContext) -> bool {
        &&& self.render_fonts() == other.render_fonts()
        &&& self.default_style() == other.default_style()
        &&& self.frames() == other.frames()
        &&& self.page_breaks() == other.page_breaks()
    }

    /// A context for pages of `size` with `margin`, typesetting against
    /// `fonts`; the content window starts at offset 0.
    pub fn new(margin: Quad, size: Size, fonts: Fonts) -> (r: RenderContext)
        requires
            margin.wf(),
            size.wf(),
            fonts.wf(),
        ensures
            r.wf(),
            r.margin() == margin,
            r.size() == size,
            r.window_start() == Some(Offset { x: 0, y: 0 }),
            r.window_consistent(),
            r.emitted().len() == 0,
            r.render_fonts().fonts() == fonts,
            r.render_fonts().names().len() == 0,
            r.default_style() == Style::new_default_spec(),
            !r.frames(),
            !r.page_breaks(),
    {
        let mut r = RenderContext {
            fonts: RenderFonts::new(fonts),
            ops: Vec::new(),
            page_margin: margin,
            page_size: size,
            page_start: None,
            page_end: None,
            style: Style::new_default(),
            debug_frame: false,
            debug_page_breaks: false,
        };
        r.set_page_offsets(0);
        r
    }

    /// The same context, drawing debug frames or not.
    pub fn with_debug_frame(self, debug_frame: bool) -> (r: RenderContext)
        ensures
            self.wf() ==> r.wf(),
            r.same_pages(self),
            r.render_fonts() == self.render_fonts(),
            r.default_style() == self.default_style(),
            r.page_breaks() == self.page_breaks(),
            r.frames() == debug_frame,
    {
        RenderContext { debug_frame, ..self }
    }

    /// The same context, with page-break tracing on or off. The flag is
    /// kept for callers that trace; it changes nothing that is drawn.
    pub fn with_debug_page_breaks(self, debug_page_breaks: bool) -> (r: RenderContext)
        ensures
            self.wf() ==> r.wf(),
            r.same_pages(self),
            r.render_fonts() == self.render_fonts(),
            r.default_style() == self.default_style(),
            r.frames() == self.frames(),
            r.page_breaks() == debug_page_breaks,
    {
        RenderContext { debug_page_breaks, ..self }
    }

    /// The operations emitted so far.
    pub fn ops(&self) -> (r: &Vec<DrawOp>)
        ensures
            r@ == self.emitted(),
    {
        &self.ops
    }

    /// The operations emitted, for the caller to write.
    pub fn into_ops(self) -> (r: Vec<DrawOp>)
        ensures
            r@ == self.emitted(),
    {
        self.ops
    }

    pub fn page_margin(&self) -> (r: Quad)
        ensures
            r == self.margin(),
    {
        self.page_margin
    }

    pub fn page_size(&self) -> (r: Size)
        ensures
            r == self.size(),
    {
        self.page_size
    }

    /// The start of the content window, once established.
    pub fn page_start(&self) -> (r: Option<Offset>)
        ensures
            r == self.window_start(),
    {
        self.page_start
    }

    /// The end of the content window, once established.
    pub fn page_end(&self) -> (r: Option<Offset>)
        ensures
            r == self.window_end(),
    {
        self.page_end
    }

    /// The default style that styles inherit from.
    pub fn style(&self) -> (r: &Style)
        ensures
            *r == self.default_style(),
    {
        &self.style
    }

    fn page_content_offset(&self, c: &Offset) -> (r: Offset)
        requires
            self.wf(),
            near(c.x as int),
            near(c.y as int),
        ensures
            (r.x as int, r.y as int) == window_relative(self.page_start, (c.x as int, c.y as int)),
    {
        match &self.page_start {
            Some(s) => Offset { x: c.x - s.x, y: c.y - s.y },
            None => *c,
        }
    }

    fn swap_y(&self, p: &Offset) -> (r: Offset)
        requires
            self.wf(),
            -3 * MAX_SHIFTED <= p.y <= 3 * MAX_SHIFTED,
        ensures
            r.x == p.x,
            r.y == self.page_size.height - p.y,
    {
        Offset { x: p.x, y: self.page_size.height - p.y }
    }

    /// The page transform, used for every placement: content position to
    /// output position.
    pub fn output_position(&self, c: &Offset) -> (r: Offset)
        requires
            self.wf(),
            near(c.x as int),
            near(c.y as int),
        ensures
            (r.x as int, r.y as int) == to_output(
                self.margin(),
                self.size(),
                self.window_start(),
                (c.x as int, c.y as int),
            ),
    {
        let p = self.page_content_offset(c);
        let shifted = Offset { x: p.x + self.page_margin.left, y: p.y + self.page_margin.top };
        self.swap_y(&shifted)
    }

    /// The inverse of the page transform: output position to content
    /// position.
    pub fn content_position(&self, o: &Offset) -> (r: Offset)
        requires
            self.wf(),
            near(o.x as int),
            near(o.y as int),
        ensures
            (r.x as int, r.y as int) == from_output(
                self.margin(),
                self.size(),
                self.window_start(),
                (o.x as int, o.y as int),
            ),
    {
        let x = o.x - self.page_margin.left;
        let y = self.page_size.height - o.y - self.page_margin.top;
        match &self.page_start {
            Some(s) => Offset { x: x + s.x, y: y + s.y },
            None => Offset { x, y },
        }
    }

    /// Establishes the content window at `content_offset`: it starts there and
    /// spans the page inside the margins.
    fn set_page_offsets(&mut self, content_offset: i64)
        requires
            old(self).page_margin.wf(),
            old(self).page_size.wf(),
            -MAX_COORD <= content_offset <= MAX_COORD,
        ensures
            *final(self) == (RenderContext {
                page_start: final(self).page_start,
                page_end: final(self).page_end,
                ..*old(self)
            }),
            final(self).page_start == Some(Offset { x: 0, y: content_offset }),
            final(self).page_end matches Some(e) && (e.x as int, e.y as int) == window_end(
                old(self).page_margin,
                old(self).page_size,
                Offset { x: 0, y: content_offset },
            ),
    {
        let page_start = Offset { x: 0, y: content_offset };
        let page_end = Offset {
            x: self.page_size.width - self.page_margin.width(),
            y: content_offset + (self.page_size.height - self.page_margin.height()),
        };
        self.page_start = Some(page_start);
        self.page_end = Some(page_end);
    }

    /// Starts a new page, with a new margin or size where given; the content
    /// window is cleared until the next placement.
    fn new_page_internal(&mut self, margin: Option<Quad>, size: Option<Size>)
        requires
            old(self).wf(),
            margin matches Some(m) ==> m.wf(),
            size matches Some(s) ==> s.wf(),
        ensures
            final(self).wf(),
            final(self).same_setup(*old(self)),
            final(self).margin() == match margin {
                Some(m) => m,
                None => old(self).margin(),
            },
            final(self).size() == match size {
                Some(s) => s,
                None => old(self).size(),
            },
            final(self).window_start() is None,
            final(self).emitted() == old(self).emitted().push(
                DrawOp::NewPage { width: final(self).size().width, height: final(self).size().height },
            ),
    {
        if let Some(m) = margin {
            self.page_margin = m;
        }
        if let Some(s) = size {
            self.page_size = s;
        }
        self.page_start = None;
        self.page_end = None;
        self.ops.push(DrawOp::NewPage { width: self.page_size.width, height: self.page_size.height });
    }

    /// Decides whether content at `content_offset` of `content_height` needs a
    /// new page: it does where a content window is established and the
    /// content ends past the window's end. Then a new page starts. Where no
    /// window is established (or it was just cleared), the placement
    /// establishes it at `content_offset`.
    pub fn check_page_break(&mut self, content_offset: i64, content_height: i64) -> (r: bool)
        requires
            old(self).wf(),
            -MAX_COORD <= content_offset <= MAX_COORD,
        ensures
            page_break_post(*old(self), *final(self), content_offset as int, content_height as int, r),
    {
        let mut new_page = false;
        if let Some(page_end) = &self.page_end {
            if content_offset as i128 + content_height as i128 > page_end.y as i128 {
                self.new_page_internal(None, None);
                new_page = true;
            }
        }
        if self.page_start.is_none() {
            self.set_page_offsets(content_offset);
        }
        new_page
    }

    /// Starts a new page where the options ask for one: unconditionally, with
    /// the options' margin and size, unless they name content that must fit
    /// on the page, which then decides as `check_page_break` does.
    pub fn new_page(&mut self, options: Option<NewPageOptions>) -> (r: bool)
        requires
            old(self).wf(),
            options matches Some(o) ==> (o.must_be_in_page matches Some(p) ==> -MAX_COORD <= p.0
                <= MAX_COORD),
            options matches Some(o) ==> (o.margin matches Some(m) ==> m.wf()),
            options matches Some(o) ==> (o.size matches Some(s) ==> s.wf()),
        ensures
            final(self).wf(),
            final(self).same_setup(*old(self)),
            match options {
                Some(NewPageOptions { must_be_in_page: Some(p), .. }) => page_break_post(
                    *old(self),
                    *final(self),
                    p.0 as int,
                    p.1 as int,
                    r,
                ),
                _ => r && final(self).window_start() is None && final(self).emitted()
                    == old(self).emitted().push(
                    DrawOp::NewPage { width: final(self).size().width, height: final(self).size().height },
                ),
            },
            options matches Some(o) ==> (o.must_be_in_page is None ==> final(self).margin() == match o.margin {
                Some(m) => m,
                None => old(self).margin(),
            } && final(self).size() == match o.size {
                Some(s) => s,
                None => old(self).size(),
            }),
            options is None ==> final(self).margin() == old(self).margin() && final(self).size()
                == old(self).size(),
    {
        match options {
            Some(NewPageOptions { must_be_in_page: Some(p), .. }) => self.check_page_break(p.0, p.1),
            Some(o) => {
                self.new_page_internal(o.margin, o.size);
                true
            },
            None => {
                self.new_page_internal(None, None);
                true
            },
        }
    }

    /// Finalizes the fonts of the document: see
    /// `RenderFonts::complete_and_write`. The subsets come back in the order
    /// of their embedding handles.
    pub fn complete_fonts(&mut self) -> (r: Result<Vec<Vec<u8>>, Error>)
        requires
            old(self).wf(),
        ensures
            final(self).wf(),
            final(self).same_pages(*old(self)),
            final(self).default_style() == old(self).default_style(),
            final(self).frames() == old(self).frames(),
            final(self).page_breaks() == old(self).page_breaks(),
            complete_post(old(self).render_fonts(), final(self).render_fonts(), r),
    {
        self.fonts.complete_and_write()
    }

    /// Typesets `text` in the font the style resolves to, collecting its
    /// glyphs for the document. Fails with `UnknownFont` where the style
    /// resolves to no font name or no size.
    pub fn typeset(&mut self, style: &Style, text: &str) -> (r: Result<TextPosition, Error>)
        requires
            old(self).wf(),
        ensures
            final(self).wf(),
            final(self).same_pages(*old(self)),
            final(self).default_style() == old(self).default_style(),
            final(self).frames() == old(self).frames(),
            final(self).page_breaks() == old(self).page_breaks(),
            ({
                let name = merged_name(style.font, old(self).default_style().font);
                let size = merged_size(style.font, old(self).default_style().font);
                if name is None || size is None {
                    final(self).render_fonts() == old(self).render_fonts() && r matches Err(
                        Error::UnknownFont(_),
                    )
                } else {
                    typeset_post(
                        old(self).render_fonts(),
                        final(self).render_fonts(),
                        name->Some_0,
                        text@,
                        merged_tags(style.font, old(self).default_style().font),
                        r,
                    )
                }
            }),
    {
        let font = style.font.merge(&self.style.font);
        if font.size.is_none() {
            return Err(Error::UnknownFont("Font name or size is undefined".to_owned()));
        }
        match &font.name {
            Some(name) => {
                let features = match &font.features {
                    Some(f) => f.duplicate(),
                    None => Features::empty(),
                };
                let ghost f0 = self.fonts;
                let nm = name.as_str();
                let r = self.fonts.typeset(nm, text, &features);
                proof {
                    assert(f0 == old(self).fonts);
                    assert(self.fonts.wf());
                    assert(nm@ == name@);
                    assert(features.tags@ == merged_tags(style.font, old(self).default_style().font));
                    assert(typeset_post(f0, self.fonts, name@, text@, features.tags@, r));
                    assert(merged_name(style.font, old(self).default_style().font) == Some(name@));
                    assert(old(self).render_fonts() == f0);
                    assert(self.render_fonts() == self.fonts);
                    assert(typeset_post(
                        old(self).render_fonts(),
                        self.render_fonts(),
                        name@,
                        text@,
                        features.tags@,
                        r,
                    ));
                }
                r
            },
            None => Err(Error::UnknownFont("Font name or size is undefined".to_owned())),
        }
    }

    /// Emits a typeset text at `content_position`, which is its baseline
    /// where `position_is_baseline`, and its top otherwise. The glyph ids of
    /// `text` are local ids of the font the style resolves to, whose subset
    /// must be finalized: a font without an embedding handle is refused with
    /// `FontNotFinalized`, and nothing is drawn. Text with no glyphs, or a
    /// style that resolves to no font name or size, draws nothing.
    pub fn text(
        &mut self,
        content_position: &Offset,
        style: &Style,
        text: &TextPosition,
        position_is_baseline: bool,
    ) -> (r: Result<(), Error>)
        requires
            old(self).wf(),
            content_position.wf(),
            style.wf(),
            text.positions@.len() > 0 ==> text.units_per_em > 0,
        ensures
            text_post(*old(self), *final(self), *content_position, *style, *text, position_is_baseline, r),
    {
        if text.positions.len() == 0 {
            return Ok(());
        }
        let font = style.font.merge(&self.style.font);
        let size = match font.size {
            Some(s) => s,
            None => return Ok(()),
        };
        let name = match &font.name {
            Some(n) => n,
            None => return Ok(()),
        };
        let font_ref = match self.fonts.get_font_ref(name.as_str()) {
            Some(f) => f,
            None => return Err(Error::FontNotFinalized(name.clone())),
        };
        let scale = match font.scaling {
            Some(s) => s,
            None => UNSCALED,
        };
        let units_per_em = text.units_per_em;
        let height = em_to_nm(text.height as i64, units_per_em, size, UNSCALED);
        let brk = self.check_page_break(content_position.y, height);
        let ghost mid = *self;
        let rise = if position_is_baseline {
            0
        } else {
            em_to_nm(text.ascent(), units_per_em, size, UNSCALED)
        };
        let at = self.output_position(&Offset { x: content_position.x, y: content_position.y + rise });
        self.emit_run(font_ref, size, scale, style.color, at, text);
        proof {
            let height_len = em_len(
                text.height as int,
                text.units_per_em as int,
                size as int,
                UNSCALED as int,
            );
            assert(page_break_post(*old(self), mid, content_position.y as int, height_len, brk));
        }
        Ok(())
    }

    /// Emits the operations of one text run: see `run_ops`.
    fn emit_run(
        &mut self,
        font_ref: usize,
        size: u32,
        scale: u32,
        color: Option<Rgba>,
        at: Offset,
        text: &TextPosition,
    )
        requires
            text.units_per_em > 0,
            size <= crate::text::MAX_FONT_SIZE,
            scale <= crate::text::MAX_SCALING,
        ensures
            *final(self) == (RenderContext { ops: final(self).ops, ..*old(self) }),
            final(self).ops@ == old(self).ops@ + run_ops(font_ref, size, scale, color, at.x, at.y, *text),
    {
        let units_per_em = text.units_per_em;
        let ghost start = self.ops@;
        let own = match color {
            Some(c) => c != Rgba::black(),
            None => false,
        };
        self.ops.push(DrawOp::BeginText);
        if own {
            if let Some(c) = color {
                self.ops.push(DrawOp::SetFillColor(c));
            }
        }
        self.ops.push(DrawOp::SetFont { font_ref, size });
        self.ops.push(DrawOp::SetTextCursor { x: at.x, y: at.y });
        self.ops.push(DrawOp::SetTextScaling(scale));
        let ghost head = self.ops@;
        let ghost gs = text.positions@;
        let mut i: usize = 0;
        while i < text.positions.len()
            invariant
                gs == text.positions@,
                i <= gs.len(),
                units_per_em > 0,
                size <= crate::text::MAX_FONT_SIZE,
                scale <= crate::text::MAX_SCALING,
                self.ops@ == head + glyphs_ops(
                    gs.subrange(0, i as int),
                    units_per_em as int,
                    size as int,
                    scale as int,
                ),
                *self == (RenderContext { ops: self.ops, ..*old(self) }),
            decreases gs.len() - i,
        {
            let g = text.positions[i];
            let ghost before = self.ops@;
            if g.h_offset != 0 || g.v_offset != 0 {
                let x = em_to_nm(g.h_offset as i64, units_per_em, size, scale);
                let y = em_to_nm(g.v_offset as i64, units_per_em, size, UNSCALED);
                self.ops.push(DrawOp::SetTextCursor { x, y });
            }
            self.ops.push(DrawOp::WriteGlyph(g.glyph_index));
            let x = em_to_nm(g.h_advance_rest(), units_per_em, size, scale);
            let y = em_to_nm(g.v_advance_rest(), units_per_em, size, UNSCALED);
            self.ops.push(DrawOp::SetTextCursor { x, y });
            proof {
                let sub = gs.subrange(0, i as int + 1);
                assert(sub.drop_last() =~= gs.subrange(0, i as int));
                assert(sub.last() == g);
                assert(self.ops@ =~= before + glyph_ops(g, units_per_em as int, size as int, scale as int));
                assert(self.ops@ =~= head + glyphs_ops(sub, units_per_em as int, size as int, scale as int));
            }
            i = i + 1;
        }
        self.ops.push(DrawOp::SetTextScaling(UNSCALED));
        if own {
            self.ops.push(DrawOp::SetFillColor(Rgba::black()));
        }
        self.ops.push(DrawOp::EndText);
        proof {
            assert(gs.subrange(0, gs.len() as int) =~= gs);
            assert(self.ops@ =~= start + run_ops(font_ref, size, scale, color, at.x, at.y, *text));
        }
    }

    /// Draws the outline of a box at `content_position` of `size`, where
    /// debug frames are on.
    pub fn debug_frame(&mut self, content_position: &Offset, size: &Size)
        requires
            old(self).wf(),
            content_position.wf(),
            size.wf(),
        ensures
            final(self).wf(),
            final(self).same_setup(*old(self)),
            final(self).margin() == old(self).margin(),
            final(self).size() == old(self).size(),
            final(self).window_start() == old(self).window_start(),
            final(self).window_end() == old(self).window_end(),
            !old(self).frames() ==> final(self).emitted() == old(self).emitted(),
            old(self).frames() ==> {
                let x = content_position.x as int;
                let y = content_position.y as int;
                let w = size.width as int;
                let h = size.height as int;
                let out = |p: (int, int)| to_output(old(self).margin(), old(self).size(), old(self).window_start(), p);
                &&& final(self).emitted().len() == old(self).emitted().len() + 1
                &&& final(self).emitted().drop_last() == old(self).emitted()
                &&& is_line(
                    final(self).emitted().last(),
                    seq![out((x, y)), out((x + w, y)), out((x + w, y + h)), out((x, y + h)), out((x, y))],
                    Rgba { r: 240, g: 240, b: 240, a: 255 },
                    DEBUG_FRAME_THICKNESS,
                )
            },
    {
        if self.debug_frame {
            let c = *content_position;
            let top_left = self.output_position(&c);
            let top_right = self.output_position(&Offset { x: c.x + size.width, y: c.y });
            let bottom_right = self.output_position(&Offset { x: c.x + size.width, y: c.y + size.height });
            let bottom_left = self.output_position(&Offset { x: c.x, y: c.y + size.height });
            let points = vec![top_left, top_right, bottom_right, bottom_left, top_left];
            let ghost before = self.ops@;
            self.ops.push(DrawOp::Line { points, color: Rgba::new(240, 240, 240, 255), thickness: DEBUG_FRAME_THICKNESS });
            proof {
                assert(self.ops@.drop_last() =~= before);
            }
        }
    }

    /// Draws a line from `from` to `to` with `stroke`; the line's start decides
    /// the page break.
    pub fn line(&mut self, from: &Offset, to: &Offset, stroke: &Stroke)
        requires
            old(self).wf(),
            from.wf(),
            to.wf(),
        ensures
            exists|mid: RenderContext, brk: bool|
                {
                    let out = |p: (int, int)| to_output(mid.margin(), mid.size(), mid.window_start(), p);
                    &&& #[trigger] page_break_post(*old(self), mid, from.y as int, 0, brk)
                    &&& final(self).wf()
                    &&& final(self).same_setup(mid)
                    &&& final(self).margin() == mid.margin()
                    &&& final(self).size() == mid.size()
                    &&& final(self).window_start() == mid.window_start()
                    &&& final(self).window_end() == mid.window_end()
                    &&& final(self).emitted().len() == mid.emitted().len() + 1
                    &&& final(self).emitted().drop_last() == mid.emitted()
                    &&& is_line(
                        final(self).emitted().last(),
                        seq![out((from.x as int, from.y as int)), out((to.x as int, to.y as int))],
                        stroke.color,
                        stroke.thickness,
                    )
                },
    {
        let brk = self.check_page_break(from.y, 0);
        let ghost mid = *self;
        let a = self.output_position(from);
        let b = self.output_position(to);
        let points = vec![a, b];
        self.ops.push(DrawOp::Line { points, color: stroke.color, thickness: stroke.thickness });
        proof {
            assert(self.ops@.drop_last() =~= mid.ops@);
            assert(page_break_post(*old(self), mid, from.y as int, 0, brk));
        }
    }
}

/// The font name a style resolves to, given the defaults.
pub open spec fn merged_name(style: FontStyle, defaults: FontStyle) -> Option<Seq<char>> {
    if style.name is Some {
        opt_view(style.name)
    } else {
        opt_view(defaults.name)
    }
}

/// The feature tags a style resolves to, given the defaults: none where
/// neither names features.
pub open spec fn merged_tags(style: FontStyle, defaults: FontStyle) -> Seq<u32> {
    if style.features is Some {
        style.features->Some_0.tags@
    } else if defaults.features is Some {
        defaults.features->Some_0.tags@
    } else {
        Seq::empty()
    }
}

/// The font size a style resolves to, given the defaults.
pub open spec fn merged_size(style: FontStyle, defaults: FontStyle) -> Option<u32> {
    if style.size is Some {
        style.size
    } else {
        defaults.size
    }
}

/// The horizontal scaling a style resolves to, given the defaults.
pub open spec fn merged_scale(style: FontStyle, defaults: FontStyle) -> u32 {
    if style.scaling is Some {
        style.scaling->Some_0
    } else if defaults.scaling is Some {
        defaults.scaling->Some_0
    } else {
        UNSCALED
    }
}

/// The embedding handle of the font named `name`, if it has one.
pub open spec fn handle_of(fonts: RenderFonts, name: Seq<char>) -> Option<usize> {
    if fonts.names().contains(name) {
        fonts.font_refs()[fonts.names().index_of(name)]
    } else {
        None
    }
}

/// A stroked polyline through these output positions.
pub open spec fn is_line(op: DrawOp, pts: Seq<(int, int)>, color: Rgba, thickness: u32) -> bool {
    op matches DrawOp::Line { points, color: c, thickness: t } && c == color && t == thickness
        && points@.len() == pts.len() && forall|i: int|
        0 <= i < pts.len() ==> (#[trigger] points@[i].x as int, points@[i].y as int) == pts[i]
}

/// What `text(c, style, t, baseline)` does. Nothing is drawn for an empty
/// text or a style that resolves to no font or no size. A font without an
/// embedding handle is refused, with nothing changed. Otherwise the page
/// break is decided for the text's height, and the run is emitted at the
/// transformed baseline.
pub open spec fn text_post(
    old: RenderContext,
    new: RenderContext,
    c: Offset,
    style: Style,
    t: TextPosition,
    baseline: bool,
    r: Result<(), Error>,
) -> bool {
    let defaults = old.default_style().font;
    let name = merged_name(style.font, defaults);
    let size = merged_size(style.font, defaults);
    let scale = merged_scale(style.font, defaults);
    &&& new.wf()
    &&& new.same_setup(old)
    &&& (t.positions@.len() == 0 || name is None || size is None) ==> r is Ok && new.same_pages(old)
    &&& (t.positions@.len() > 0 && name is Some && size is Some) ==> {
        let handle = handle_of(old.render_fonts(), name->Some_0);
        let s = size->Some_0;
        &&& (r is Err <==> handle is None)
        &&& handle is None ==> new.same_pages(old) && (r matches Err(e) && e.is_font_not_finalized(
            name->Some_0,
        ))
        &&& handle is Some ==> exists|mid: RenderContext, brk: bool|
            {
                let rise = if baseline {
                    0
                } else {
                    em_len(t.ascent_spec(), t.units_per_em as int, s as int, UNSCALED as int)
                };
                let at = to_output(mid.margin(), mid.size(), mid.window_start(), (c.x as int, c.y + rise));
                &&& #[trigger] page_break_post(
                    old,
                    mid,
                    c.y as int,
                    em_len(t.height as int, t.units_per_em as int, s as int, UNSCALED as int),
                    brk,
                )
                &&& new.margin() == mid.margin()
                &&& new.size() == mid.size()
                &&& new.window_start() == mid.window_start()
                &&& new.window_end() == mid.window_end()
                &&& new.emitted() == mid.emitted() + run_ops(
                    handle->Some_0,
                    s,
                    scale,
                    style.color,
                    at.0 as i64,
                    at.1 as i64,
                    t,
                )
            }
    }
}

/// What `check_page_break(offset, height)` does.
pub open spec fn page_break_post(
    old: RenderContext,
    new: RenderContext,
    offset: int,
    height: int,
    r: bool,
) -> bool {
    &&& new.wf()
    &&& new.window_consistent()
    &&& new.same_setup(old)
    &&& r == overflows(old.window_end(), offset, height)
    &&& new.margin() == old.margin()
    &&& new.size() == old.size()
    &&& new.emitted() == if r {
        old.emitted().push(DrawOp::NewPage { width: old.size().width, height: old.size().height })
    } else {
        old.emitted()
    }
    &&& new.window_start() == if r || old.window_start() is None {
        Some(Offset { x: 0, y: offset as i64 })
    } else {
        old.window_start()
    }
}

} // verus!
