//! Colours and the font part of a style, with inheritance of defaults.
use vstd::prelude::*;

use crate::text::{Features, MAX_FONT_SIZE, MAX_SCALING};

verus! {

/// A colour: red, green, blue and opacity, each out of 255.
#[derive(Debug, Clone, Copy, PartialEq, Eq, Structural)]
pub struct Rgba {
    pub r: u8,
    pub g: u8,
    pub b: u8,
    pub a: u8,
}

impl Rgba {
    pub fn new(r: u8, g: u8, b: u8, a: u8) -> (c: Rgba)
        ensures
            c == (Rgba { r, g, b, a }),
    {
        Rgba { r, g, b, a }
    }

    /// Opaque black, the colour text has unless a style says otherwise.
    pub fn black() -> (c: Rgba)
        ensures
            c == (Rgba { r: 0, g: 0, b: 0, a: 255 }),
    {
        Rgba { r: 0, g: 0, b: 0, a: 255 }
    }
}

/// A stroke: colour and thickness in millipoints.
#[derive(Debug, Clone, Copy, PartialEq, Eq, Structural)]
pub struct Stroke {
    pub color: Rgba,
    pub thickness: u32,
}

impl Features {
    /// A copy of the features.
    pub fn duplicate(&self) -> (r: Features)
        ensures
            r.tags@ == self.tags@,
    {
        let tags = self.tags.clone();
        proof {
            assert(tags@ =~= self.tags@);
        }
        Features { tags }
    }
}

/// The font part of a style; a field left `None` is inherited.
#[derive(Debug, Clone, PartialEq, Eq, Default)]
pub struct FontStyle {
    pub name: Option<String>,
    /// In millipoints.
    pub size: Option<u32>,
    pub features: Option<Features>,
    /// Horizontal scaling, in per mille.
    pub scaling: Option<u32>,
}

/// The view of an optional string.
pub open spec fn opt_view(o: Option<String>) -> Option<Seq<char>> {
    match o {
        Some(s) => Some(s@),
        None => None,
    }
}

/// The view of optional features.
pub open spec fn opt_tags(o: Option<Features>) -> Option<Seq<u32>> {
    match o {
        Some(f) => Some(f.tags@),
        None => None,
    }
}

fn copy_name(o: &Option<String>) -> (r: Option<String>)
    ensures
        opt_view(r) == opt_view(*o),
{
    match o {
        Some(s) => Some(s.clone()),
        None => None,
    }
}

fn copy_features(o: &Option<Features>) -> (r: Option<Features>)
    ensures
        opt_tags(r) == opt_tags(*o),
{
    match o {
        Some(f) => Some(f.duplicate()),
        None => None,
    }
}

impl FontStyle {
    /// Sizes and scalings within the limits that lengths are computed for.
    pub open spec fn wf(&self) -> bool {
        &&& self.size matches Some(s) ==> s <= MAX_FONT_SIZE
        &&& self.scaling matches Some(s) ==> s <= MAX_SCALING
    }

    pub fn new(name: &str, size: u32, features: Option<Features>) -> (r: FontStyle)
        ensures
            opt_view(r.name) == Some(name@),
            r.size == Some(size),
            opt_tags(r.features) == opt_tags(features),
            r.scaling is None,
    {
        FontStyle { name: Some(name.to_owned()), size: Some(size), features, scaling: None }
    }

    /// This style, with each field it leaves `None` taken from `defaults`.
    pub fn merge(&self, defaults: &FontStyle) -> (r: FontStyle)
        ensures
            opt_view(r.name) == if self.name is Some {
                opt_view(self.name)
            } else {
                opt_view(defaults.name)
            },
            r.size == if self.size is Some {
                self.size
            } else {
                defaults.size
            },
            opt_tags(r.features) == if self.features is Some {
                opt_tags(self.features)
            } else {
                opt_tags(defaults.features)
            },
            r.scaling == if self.scaling is Some {
                self.scaling
            } else {
                defaults.scaling
            },
    {
        FontStyle {
            name: if self.name.is_some() { copy_name(&self.name) } else { copy_name(&defaults.name) },
            size: if self.size.is_some() { self.size } else { defaults.size },
            features: if self.features.is_some() {
                copy_features(&self.features)
            } else {
                copy_features(&defaults.features)
            },
            scaling: if self.scaling.is_some() { self.scaling } else { defaults.scaling },
        }
    }
}

/// What a box or a text is drawn with.
#[derive(Debug, Clone, PartialEq, Eq, Default)]
pub struct Style {
    pub font: FontStyle,
    pub color: Option<Rgba>,
}

impl Style {
    pub open spec fn wf(&self) -> bool {
        self.font.wf()
    }

    /// A style with the given font and no colour.
    pub fn with_font(font: FontStyle) -> (r: Style)
        ensures
            r.font == font,
            r.color is None,
    {
        Style { font, color: None }
    }

    pub open spec fn new_default_spec() -> Style {
        Style { font: FontStyle { name: None, size: None, features: None, scaling: None }, color: None }
    }

    /// No font and no colour: everything inherited.
    pub fn new_default() -> (r: Style)
        ensures
            r == Style::new_default_spec(),
    {
        Style { font: FontStyle { name: None, size: None, features: None, scaling: None }, color: None }
    }
}

} // verus!
