//! Shaped text: glyphs with their advances and offsets in font units, and
//! the conversion of font units to physical lengths.
use vstd::prelude::*;

verus! {

/// OpenType feature tag `pnum` (proportional figures).
pub const PNUM: u32 = 0x706e_756d;

/// OpenType feature tag `tnum` (tabular figures).
pub const TNUM: u32 = 0x746e_756d;

/// OpenType feature tag `smcp` (small capitals).
pub const SMCP: u32 = 0x736d_6370;

/// The largest font size, in millipoints.
pub const MAX_FONT_SIZE: u32 = 1_000_000;

/// The largest horizontal scaling, in per mille.
pub const MAX_SCALING: u32 = 4_000;

/// The largest magnitude of a length in font units that is converted.
pub const MAX_FONT_UNITS: i64 = 0x1_0000_0000;

/// Typographic features requested on top of the font's defaults, as
/// OpenType feature tags.
#[derive(Debug, Clone, PartialEq, Eq, Default)]
pub struct Features {
    pub tags: Vec<u32>,
}

impl Features {
    /// No feature beyond the defaults.
    pub fn empty() -> (r: Features)
        ensures
            r.tags@ == Seq::<u32>::empty(),
    {
        Features { tags: Vec::new() }
    }

    /// The same features and `tag`.
    pub fn with(self, tag: u32) -> (r: Features)
        ensures
            r.tags@ == self.tags@.push(tag),
    {
        let mut tags = self.tags;
        tags.push(tag);
        Features { tags }
    }

    /// Adds proportional figures.
    pub fn pnum(self) -> (r: Features)
        ensures
            r.tags@ == self.tags@.push(PNUM),
    {
        self.with(PNUM)
    }

    /// Adds tabular figures.
    pub fn tnum(self) -> (r: Features)
        ensures
            r.tags@ == self.tags@.push(TNUM),
    {
        self.with(TNUM)
    }

    /// Adds small capitals.
    pub fn smcp(self) -> (r: Features)
        ensures
            r.tags@ == self.tags@.push(SMCP),
    {
        self.with(SMCP)
    }
}

/// One shaped glyph, in font units.
#[derive(Debug, Clone, Copy, PartialEq, Eq, Structural)]
pub struct GlyphPosition {
    pub glyph_index: u16,
    pub h_advance: i32,
    pub v_advance: i32,
    pub h_offset: i32,
    pub v_offset: i32,
}

impl GlyphPosition {
    /// The horizontal move from where the glyph was drawn to where the next
    /// one starts.
    pub open spec fn h_rest(&self) -> int {
        self.h_advance - self.h_offset
    }

    /// The vertical move from where the glyph was drawn to where the next one
    /// starts; output text space grows upwards, so the advance is flipped.
    pub open spec fn v_rest(&self) -> int {
        -(self.v_advance + self.v_offset)
    }

    pub fn h_advance_rest(&self) -> (r: i64)
        ensures
            r == self.h_rest(),
    {
        self.h_advance as i64 - self.h_offset as i64
    }

    pub fn v_advance_rest(&self) -> (r: i64)
        ensures
            r == self.v_rest(),
    {
        -(self.v_advance as i64 + self.v_offset as i64)
    }
}

/// The measurement of a typeset text: overall extent and the glyphs, all in
/// units of `units_per_em` per em.
#[derive(Debug, Clone, PartialEq, Eq)]
pub struct TextPosition {
    pub units_per_em: u16,
    /// Sum of the horizontal advances.
    pub width: i128,
    /// Ascent plus depth.
    pub height: i32,
    /// The part below the baseline.
    pub depth: i32,
    pub positions: Vec<GlyphPosition>,
}

/// Sum of the horizontal advances of the glyphs.
pub open spec fn advance_sum(ps: Seq<GlyphPosition>) -> int
    decreases ps.len(),
{
    if ps.len() == 0 {
        0
    } else {
        advance_sum(ps.drop_last()) + ps.last().h_advance
    }
}

/// The glyph that a shaped glyph (id, advance x, advance y, offset x,
/// offset y) makes.
pub open spec fn shaped_glyph(g: (u16, i32, i32, i32, i32)) -> GlyphPosition {
    GlyphPosition { glyph_index: g.0, h_advance: g.1, v_advance: g.2, h_offset: g.3, v_offset: g.4 }
}

/// The glyphs that shaped glyphs make, in order.
pub open spec fn shaped_glyphs(v: Seq<(u16, i32, i32, i32, i32)>) -> Seq<GlyphPosition> {
    v.map_values(|g: (u16, i32, i32, i32, i32)| shaped_glyph(g))
}

/// `t` is the measurement of the shaped glyphs `v` in a font with metrics
/// `m` (units per em, ascender, descender).
pub open spec fn measures(t: TextPosition, m: (u16, i16, i16), v: Seq<(u16, i32, i32, i32, i32)>) -> bool {
    &&& t.units_per_em == m.0
    &&& t.height == m.1 - m.2
    &&& t.depth == -m.2
    &&& t.positions@ == shaped_glyphs(v)
    &&& t.width == advance_sum(shaped_glyphs(v))
}

impl TextPosition {
    /// The part above the baseline.
    pub open spec fn ascent_spec(&self) -> int {
        self.height - self.depth
    }

    pub fn ascent(&self) -> (r: i64)
        ensures
            r == self.ascent_spec(),
    {
        self.height as i64 - self.depth as i64
    }

    /// Assembles the measurement of a shaped text from the font's metrics
    /// and the shaped glyphs (id, advance x, advance y, offset x, offset y).
    pub fn from_shaped(
        units_per_em: u16,
        ascender: i16,
        descender: i16,
        shaped: &Vec<(u16, i32, i32, i32, i32)>,
    ) -> (r: TextPosition)
        ensures
            measures(r, (units_per_em, ascender, descender), shaped@),
    {
        let mut positions: Vec<GlyphPosition> = Vec::new();
        let mut width: i128 = 0;
        let mut i: usize = 0;
        while i < shaped.len()
            invariant
                i <= shaped@.len(),
                positions@ == shaped_glyphs(shaped@.subrange(0, i as int)),
                width == advance_sum(positions@),
                -(i as int) * 0x8000_0000 <= width <= (i as int) * 0x8000_0000,
            decreases shaped@.len() - i,
        {
            let (glyph_index, h_advance, v_advance, h_offset, v_offset) = shaped[i];
            let g = GlyphPosition { glyph_index, h_advance, v_advance, h_offset, v_offset };
            proof {
                assert((i as int) * 0x8000_0000 <= 0x1_0000_0000_0000_0000int * 0x8000_0000)
                    by (nonlinear_arith)
                    requires
                        (i as int) <= 0x1_0000_0000_0000_0000int;
            }
            let ghost before = positions@;
            width = width + h_advance as i128;
            positions.push(g);
            proof {
                assert(positions@.drop_last() =~= before);
                assert(positions@ =~= shaped_glyphs(shaped@.subrange(0, i as int + 1)));
            }
            i = i + 1;
        }
        proof {
            assert(shaped@.subrange(0, shaped@.len() as int) =~= shaped@);
        }
        TextPosition {
            units_per_em,
            width,
            height: ascender as i32 - descender as i32,
            depth: -(descender as i32),
            positions,
        }
    }
}

/// A length in font units as nanometres: `units / units_per_em` ems of a
/// font of `size` millipoints, widened by `scale` per mille, rounded toward
/// zero. One point is 25.4 / 72 millimetres.
pub open spec fn em_len(units: int, units_per_em: int, size: int, scale: int) -> int {
    let num = units * size * scale * 254;
    let den = 720 * units_per_em;
    if num >= 0 {
        num / den
    } else {
        -((-num) / den)
    }
}

/// Converts a length in font units to nanometres.
pub fn em_to_nm(units: i64, units_per_em: u16, size: u32, scale: u32) -> (r: i64)
    requires
        -MAX_FONT_UNITS <= units <= MAX_FONT_UNITS,
        units_per_em > 0,
        size <= MAX_FONT_SIZE,
        scale <= MAX_SCALING,
    ensures
        r == em_len(units as int, units_per_em as int, size as int, scale as int),
        scale <= 1000 ==> -1_600_000_000_000_000_000 <= r <= 1_600_000_000_000_000_000,
{
    let den: u128 = 720 * units_per_em as u128;
    let mag: u128 = if units >= 0 { units as u128 } else { (-units) as u128 };
    proof {
        assert(mag * size <= 0x1_0000_0000int * 1_000_000) by (nonlinear_arith)
            requires
                mag <= 0x1_0000_0000,
                size <= 1_000_000,
        ;
        assert(mag * size * scale <= 0x1_0000_0000int * 1_000_000 * 4_000) by (nonlinear_arith)
            requires
                mag * size <= 0x1_0000_0000int * 1_000_000,
                scale <= 4_000,
        ;
    }
    proof {
        if scale <= 1000 {
            assert(mag * size * scale <= 0x1_0000_0000int * 1_000_000 * 1_000) by (nonlinear_arith)
                requires
                    mag * size <= 0x1_0000_0000int * 1_000_000,
                    scale <= 1_000,
            ;
        }
    }
    let prod: u128 = mag * size as u128 * scale as u128 * 254;
    let q: u128 = prod / den;
    proof {
        assert(q * 720 <= prod) by (nonlinear_arith)
            requires
                den >= 720,
                q == prod / den,
        ;
    }
    let ghost units_i: int = units as int;
    proof {
        let num = units_i * size * scale * 254;
        if units >= 0 {
            assert(num == prod);
        } else {
            assert(-num == prod) by (nonlinear_arith)
                requires
                    num == units_i * size * scale * 254,
                    prod == mag * size * scale * 254,
                    mag == -units_i,
            ;
        }
    }
    if units >= 0 {
        q as i64
    } else {
        -(q as i64)
    }
}

} // verus!
