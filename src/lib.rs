//! Turns typeset text and laid-out boxes into a paginated PDF drawing.
//!
//! The library owns the font cache, the glyph collection that drives font
//! subsetting, and the pagination and coordinate engine. Font parsing,
//! shaping and subsetting are done by `allsorts`; the drawing operations it
//! computes are written to a PDF document by the caller.
use vstd::prelude::*;

pub mod collector;
pub mod context;
pub mod error;
pub mod font;
pub mod geometry;
pub mod render_fonts;
pub mod renderer;
pub mod style;
pub mod text;

use crate::font::{FontSources, Fonts};

verus! {

/// An empty font source store.
pub fn new_font_sources() -> (r: FontSources)
    ensures
        r.wf(),
        r@ == Map::<Seq<char>, Seq<u8>>::empty(),
{
    FontSources::new()
}

/// A font cache over `sources`, with nothing parsed yet.
pub fn new_fonts(sources: FontSources) -> (r: Fonts)
    requires
        sources.wf(),
    ensures
        r.wf(),
        r.sources() == sources@,
        r.parse_count() == 0,
        forall|n: Seq<char>| !r.is_cached(n),
{
    Fonts::new(sources)
}

} // verus!
