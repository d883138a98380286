//! The font source store, the cache of parsed fonts, and typesetting and
//! subsetting against a parsed font.
//!
//! Parsing, shaping and subsetting are done by `allsorts`. A parsed font
//! borrows the bytes it was read from for as long as it lives, so source
//! bytes are `'static`: a buffer handed over by value is moved into an
//! allocation that is never freed, and every parse borrows it without a copy.
use std::sync::{Arc, Mutex};

use allsorts::binary::read::ReadScope;
use allsorts::font::MatchingPresentation;
use allsorts::font_data::{DynamicFontTableProvider, FontData};
use allsorts::glyph_position::{GlyphLayout, TextDirection};
use allsorts::gsub::{FeatureInfo, FeatureMask, FeatureMaskExt};
use allsorts::subset::{CmapTarget, SubsetProfile};
use vstd::prelude::*;

use crate::collector::{
    collect_all, collect_glyphs, collected, collected_ids, collected_len, glyph_ids, localized,
};
use crate::error::Error;
use crate::text::{advance_sum, measures, shaped_glyphs, Features, TextPosition};

verus! {

/// The face read from a font file: the only one of a plain font, the first of
/// a collection.
pub const NON_TTC_TABLE: usize = 0;

/// OpenType script tag `latn`.
pub const LATN: u32 = 0x6c61_746e;

#[verifier::external_type_specification]
#[verifier::external_body]
pub struct ExReadWriteError(allsorts::error::ReadWriteError);

#[verifier::external_type_specification]
#[verifier::external_body]
pub struct ExParseError(allsorts::error::ParseError);

#[verifier::external_type_specification]
#[verifier::external_body]
pub struct ExSubsetError(allsorts::subset::SubsetError);

/// A font parsed by `allsorts`, behind a lock: shaping needs exclusive
/// access, because the parser fills its table caches in place.
#[verifier::external_body]
pub struct ParsedFont {
    font: Mutex<allsorts::Font<DynamicFontTableProvider<'static>>>,
}

/// The glyphs `allsorts` shapes `text` into, in `script` with the feature
/// `tags`, against the font read from face `NON_TTC_TABLE` of these bytes:
/// glyph id, advance x, advance y, offset x, offset y. `None` where the
/// glyphs cannot be positioned.
pub uninterp spec fn shaped_of(bytes: Seq<u8>, script: u32, text: Seq<char>, tags: Seq<u32>) -> Option<
    Seq<(u16, i32, i32, i32, i32)>,
>;

/// Units per em, ascender and descender of the font read from face
/// `NON_TTC_TABLE` of these bytes.
pub uninterp spec fn metrics_of(bytes: Seq<u8>) -> (u16, i16, i16);

/// Whether `allsorts` reads face `index` of these bytes as a font.
pub uninterp spec fn font_parses(bytes: Seq<u8>, index: usize) -> bool;

/// What `allsorts` makes of face `index` of these bytes subset to these glyph
/// ids, if it succeeds.
pub uninterp spec fn subset_bytes(bytes: Seq<u8>, index: usize, ids: Seq<u16>) -> Option<Seq<u8>>;

/// Whether typesetting against the font read from `bytes` succeeds, the
/// font's lock aside: the glyphs can be positioned and the font has units
/// per em.
pub open spec fn typesets(bytes: Seq<u8>, text: Seq<char>, tags: Seq<u32>) -> bool {
    shaped_of(bytes, LATN, text, tags) is Some && metrics_of(bytes).0 > 0
}

/// `t` measures `text` shaped with `tags` against the font read from `bytes`.
pub open spec fn typeset_of(bytes: Seq<u8>, text: Seq<char>, tags: Seq<u32>, t: TextPosition) -> bool {
    shaped_of(bytes, LATN, text, tags) matches Some(v) && metrics_of(bytes).0 > 0 && measures(
        t,
        metrics_of(bytes),
        v,
    )
}

/// `t` measures `text` shaped with `tags` against the font read from `bytes`,
/// with each glyph id replaced by its local id in `after`: the collector
/// `before` after taking in the shaped glyph ids in order.
pub open spec fn collected_typeset(
    bytes: Seq<u8>,
    text: Seq<char>,
    tags: Seq<u32>,
    before: Seq<u16>,
    after: Seq<u16>,
    t: TextPosition,
) -> bool {
    shaped_of(bytes, LATN, text, tags) matches Some(v) && {
        let m = metrics_of(bytes);
        let gs = shaped_glyphs(v);
        &&& m.0 > 0
        &&& t.units_per_em == m.0
        &&& t.height == m.1 - m.2
        &&& t.depth == -m.2
        &&& t.width == advance_sum(gs)
        &&& t.positions@.len() == gs.len()
        &&& after == collect_all(before, glyph_ids(gs))
        &&& forall|i: int| 0 <= i < gs.len() ==> localized(after, #[trigger] gs[i], t.positions@[i])
    }
}

/// Relies on allsorts' `ReadScope::read::<FontData>`, `FontData::table_provider`
/// and `Font::new`: reading a font from its bytes depends on the bytes alone.
/// A parsed font caches the glyph of the dotted circle (U+25CC) on its first
/// lookup, whatever variation selector that lookup asked for, and `shape`
/// makes the plain lookup. So the plain lookup is made here, right after
/// parsing: every parse then holds the same cache, and shaping against it
/// depends on the bytes alone.
#[verifier::external_body]
fn parse_font(bytes: &'static [u8], index: usize) -> (r: Result<ParsedFont, allsorts::error::ReadWriteError>)
    ensures
        r is Ok == font_parses(bytes@, index),
{
    let font_data = ReadScope::new(bytes).read::<FontData>()?;
    let provider = font_data.table_provider(index)?;
    let mut font = allsorts::Font::new(provider)?;
    font.lookup_glyph_index(allsorts::DOTTED_CIRCLE, MatchingPresentation::NotRequired, None);
    Ok(ParsedFont { font: Mutex::new(font) })
}

/// Relies on allsorts' `Font::map_glyphs`, `Font::shape` (the default
/// features and the requested ones; shaping that fails part way yields the
/// glyphs shaped so far) and `GlyphLayout::glyph_positions`, left to right:
/// the glyph id, advance x, advance y, offset x and offset y of each shaped
/// glyph. The font was read from `font.source()`, face `NON_TTC_TABLE`, by
/// `parse_font`, which leaves the font's only lookup cache (the dotted
/// circle) the same after every parse; the table caches that shaping fills
/// hold what the bytes say. So shaping depends on the bytes, the script, the
/// text and the tags alone.
/// `None` when the font's lock is poisoned.
#[verifier::external_body]
fn shape_text(
    font: &CachedAllsortsFont,
    script: u32,
    text: &str,
    tags: &Vec<u32>,
) -> (r: Option<Result<Vec<(u16, i32, i32, i32, i32)>, allsorts::error::ParseError>>)
    ensures
        r matches Some(Ok(v)) ==> shaped_of(font.source(), script, text@, tags@) == Some(v@),
        r matches Some(Err(_)) ==> shaped_of(font.source(), script, text@, tags@) is None,
{
    let mut f = font.font.font.lock().ok()?;
    let glyphs = f.map_glyphs(text, script, MatchingPresentation::NotRequired);
    let custom: Vec<FeatureInfo> =
        tags.iter().map(|t| FeatureInfo { feature_tag: *t, alternate: None }).collect();
    let infos = f.shape(glyphs, script, None, FeatureMask::default_mask(), &custom, None, true)
        .unwrap_or_else(|(_, infos)| infos);
    let positions = GlyphLayout::new(&mut f, &infos, TextDirection::LeftToRight, false).glyph_positions();
    Some(positions.map(|ps| {
        infos.iter().zip(ps).map(|(i, p)| {
            (i.glyph.glyph_index, p.hori_advance, p.vert_advance, p.x_offset, p.y_offset)
        }).collect()
    }))
}

/// Relies on allsorts' parsed `head` and `hhea` tables: units per em,
/// ascender and descender of the font read from `font.source()`. `None` when
/// the font's lock is poisoned.
#[verifier::external_body]
fn font_metrics(font: &CachedAllsortsFont) -> (r: Option<(u16, i16, i16)>)
    ensures
        r matches Some(m) ==> m == metrics_of(font.source()),
{
    let f = font.font.font.lock().ok()?;
    Some((f.head_table.units_per_em, f.hhea_table.ascender, f.hhea_table.descender))
}

/// Relies on allsorts' `subset::subset` with its table profile for PDF
/// embedding: the
/// glyph at position `i` of `ids` becomes glyph `i` of the subset font. The
/// result depends on the bytes and the ids alone.
#[verifier::external_body]
fn subset_font(
    bytes: &'static [u8],
    index: usize,
    ids: &Vec<u16>,
) -> (r: Result<Vec<u8>, allsorts::subset::SubsetError>)
    ensures
        match r {
            Ok(b) => subset_bytes(bytes@, index, ids@) == Some(b@),
            Err(_) => subset_bytes(bytes@, index, ids@) is None,
        },
{
    let font_data = ReadScope::new(bytes).read::<FontData>()?;
    let provider = font_data.table_provider(index)?;
    allsorts::subset::subset(&provider, ids, &SubsetProfile::Pdf, CmapTarget::Unrestricted)
}

/// Relies on `Vec::leak`: the bytes stay, unchanged, for the rest of the
/// process.
#[verifier::external_body]
fn leak_bytes(v: Vec<u8>) -> (r: &'static [u8])
    ensures
        r@ == v@,
{
    v.leak()
}

/// Relies on `Arc::clone`: the clone points to the same value.
#[verifier::external_body]
fn share<T>(a: &Arc<T>) -> (r: Arc<T>)
    ensures
        r == *a,
{
    Arc::clone(a)
}

/// A parsed font together with the name and the bytes it was read from.
pub struct CachedAllsortsFont {
    name: String,
    source: &'static [u8],
    font: ParsedFont,
}

impl CachedAllsortsFont {
    pub closed spec fn name(&self) -> Seq<char> {
        self.name@
    }

    pub closed spec fn source(&self) -> Seq<u8> {
        self.source@
    }

    /// Parses `source`; fails with `MalformedFont(name)` where the bytes are
    /// not a font.
    pub fn from_source(name: &str, source: &'static [u8]) -> (r: Result<CachedAllsortsFont, Error>)
        ensures
            r is Ok == font_parses(source@, NON_TTC_TABLE),
            r matches Ok(c) ==> c.name() == name@ && c.source() == source@,
            r matches Err(e) ==> e.is_malformed_font(name@),
    {
        match parse_font(source, NON_TTC_TABLE) {
            Ok(font) => Ok(CachedAllsortsFont { name: name.to_owned(), source, font }),
            Err(_) => Err(Error::MalformedFont(name.to_owned())),
        }
    }
}

/// A cheap, clonable handle to a parsed font.
#[derive(Clone)]
pub struct Font {
    cached_font: Arc<CachedAllsortsFont>,
}

impl Font {
    pub closed spec fn name(&self) -> Seq<char> {
        self.cached_font.name()
    }

    pub closed spec fn source(&self) -> Seq<u8> {
        self.cached_font.source()
    }

    pub fn new(cached_font: CachedAllsortsFont) -> (r: Font)
        ensures
            r.name() == cached_font.name(),
            r.source() == cached_font.source(),
    {
        Font { cached_font: Arc::new(cached_font) }
    }

    /// Another handle to the same parsed font.
    pub fn share(&self) -> (r: Font)
        ensures
            r == *self,
    {
        Font { cached_font: share(&self.cached_font) }
    }

    fn name_string(&self) -> (r: String)
        ensures
            r@ == self.name(),
    {
        self.cached_font.name.clone()
    }

    /// Shapes `text` with the requested features and measures it, in the
    /// font's units. Shaping that fails part way yields what was shaped.
    /// Fails with `MalformedFont` where the glyphs cannot be positioned or
    /// the font has no units per em, and with `LockError` where the font's
    /// lock is poisoned.
    pub fn typeset(&self, text: &str, features: &Features) -> (r: Result<TextPosition, Error>)
        ensures
            r matches Ok(t) ==> typeset_of(self.source(), text@, features.tags@, t),
            r matches Err(e) ==> e.is_lock_error(self.name()) || (e.is_malformed_font(self.name())
                && !typesets(self.source(), text@, features.tags@)),
    {
        let shaped = match shape_text(&self.cached_font, LATN, text, &features.tags) {
            Some(Ok(v)) => v,
            Some(Err(_)) => return Err(Error::MalformedFont(self.name_string())),
            None => return Err(Error::LockError(self.name_string())),
        };
        let (units_per_em, ascender, descender) = match font_metrics(&self.cached_font) {
            Some(m) => m,
            None => return Err(Error::LockError(self.name_string())),
        };
        if units_per_em == 0 {
            return Err(Error::MalformedFont(self.name_string()));
        }
        Ok(TextPosition::from_shaped(units_per_em, ascender, descender, &shaped))
    }

    /// Typesets `text` and replaces the glyph ids of the result by local ids
    /// of `glyph_collector`, which takes in each glyph seen for the first time.
    /// On failure the collector is left as it was.
    pub fn typeset_collect(
        &self,
        glyph_collector: &mut indexmap::IndexSet<u16>,
        text: &str,
        features: &Features,
    ) -> (r: Result<TextPosition, Error>)
        requires
            collected(*old(glyph_collector)).no_duplicates(),
        ensures
            collected(*final(glyph_collector)).no_duplicates(),
            r is Err ==> *final(glyph_collector) == *old(glyph_collector),
            r matches Err(e) ==> e.is_lock_error(self.name()) || (e.is_malformed_font(self.name())
                && !typesets(self.source(), text@, features.tags@)),
            r matches Ok(t) ==> collected_typeset(
                self.source(),
                text@,
                features.tags@,
                collected(*old(glyph_collector)),
                collected(*final(glyph_collector)),
                t,
            ),
    {
        let mut positions = self.typeset(text, features)?;
        collect_glyphs(glyph_collector, &mut positions.positions);
        Ok(positions)
    }

    /// Builds the subset of the font that holds the glyphs of
    /// `glyph_collector`, in its order: `None` for an empty collector, and
    /// `MalformedFont` where the subset cannot be built.
    pub fn subset(&self, glyph_collector: &indexmap::IndexSet<u16>) -> (r: Result<Option<Vec<u8>>, Error>)
        ensures
            collected(*glyph_collector).len() == 0 ==> r == Ok::<Option<Vec<u8>>, Error>(None),
            collected(*glyph_collector).len() > 0 ==> match subset_bytes(
                self.source(),
                NON_TTC_TABLE,
                collected(*glyph_collector),
            ) {
                Some(b) => r matches Ok(Some(v)) && v@ == b,
                None => r matches Err(e) && e.is_malformed_font(self.name()),
            },
    {
        if collected_len(glyph_collector) == 0 {
            return Ok(None);
        }
        let ids = collected_ids(glyph_collector);
        match subset_font(self.cached_font.source, NON_TTC_TABLE, &ids) {
            Ok(blob) => Ok(Some(blob)),
            Err(_) => Err(Error::MalformedFont(self.name_string())),
        }
    }
}

/// Named font files: the bytes each font is read from.
pub struct FontSources {
    data: Vec<(String, &'static [u8])>,
    map: Ghost<Map<Seq<char>, Seq<u8>>>,
}

impl View for FontSources {
    type V = Map<Seq<char>, Seq<u8>>;

    closed spec fn view(&self) -> Map<Seq<char>, Seq<u8>> {
        self.map@
    }
}

impl FontSources {
    pub closed spec fn wf(&self) -> bool {
        &&& forall|i: int|
            0 <= i < self.data@.len() ==> #[trigger] self.map@.contains_key(self.data@[i].0@)
                && self.map@[self.data@[i].0@] == self.data@[i].1@
        &&& forall|k: Seq<char>|
            #[trigger] self.map@.contains_key(k) ==> exists|i: int|
                0 <= i < self.data@.len() && self.data@[i].0@ == k
        &&& forall|i: int, j: int|
            0 <= i < self.data@.len() && 0 <= j < self.data@.len() && i != j ==> (
            #[trigger] self.data@[i]).0@ != (#[trigger] self.data@[j]).0@
    }

    pub fn new() -> (r: FontSources)
        ensures
            r.wf(),
            r@ == Map::<Seq<char>, Seq<u8>>::empty(),
    {
        FontSources { data: Vec::new(), map: Ghost(Map::empty()) }
    }

    fn find(&self, name: &String) -> (r: Option<usize>)
        requires
            self.wf(),
        ensures
            match r {
                Some(i) => i < self.data@.len() && self.data@[i as int].0@ == name@,
                None => !self@.contains_key(name@),
            },
    {
        let mut i: usize = 0;
        while i < self.data.len()
            invariant
                i <= self.data@.len(),
                forall|j: int| 0 <= j < i ==> self.data@[j].0@ != name@,
            decreases self.data@.len() - i,
        {
            if self.data[i].0 == *name {
                return Some(i);
            }
            i = i + 1;
        }
        None
    }

    fn insert_new(&mut self, name: String, source: &'static [u8])
        requires
            old(self).wf(),
            !old(self)@.contains_key(name@),
        ensures
            final(self).wf(),
            final(self)@ == old(self)@.insert(name@, source@),
    {
        let ghost n = name@;
        self.data.push((name, source));
        self.map = Ghost(self.map@.insert(n, source@));
        proof {
            let last = self.data@.len() - 1;
            assert(self.data@[last].0@ == n);
            assert forall|k: Seq<char>| #[trigger] self.map@.contains_key(k) implies exists|i: int|
                0 <= i < self.data@.len() && self.data@[i].0@ == k by {
                if k != n {
                    let i = choose|i: int| 0 <= i < old(self).data@.len() && old(self).data@[i].0@ == k;
                    assert(self.data@[i] == old(self).data@[i]);
                }
            }
        }
    }

    /// Registers `source` under `name` unless a source is registered there
    /// already, in which case nothing changes.
    pub fn add(&mut self, name: &str, source: &'static [u8]) -> (r: Result<(), Error>)
        requires
            old(self).wf(),
        ensures
            final(self).wf(),
            r is Ok,
            final(self)@ == if old(self)@.contains_key(name@) {
                old(self)@
            } else {
                old(self)@.insert(name@, source@)
            },
    {
        let name = name.to_owned();
        if self.find(&name).is_none() {
            self.insert_new(name, source);
        }
        Ok(())
    }

    /// Registers an owned buffer under `name` unless a source is registered
    /// there already, in which case nothing changes.
    pub fn add_owned(&mut self, name: &str, source: Vec<u8>) -> (r: Result<(), Error>)
        requires
            old(self).wf(),
        ensures
            final(self).wf(),
            r is Ok,
            final(self)@ == if old(self)@.contains_key(name@) {
                old(self)@
            } else {
                old(self)@.insert(name@, source@)
            },
    {
        let name = name.to_owned();
        if self.find(&name).is_none() {
            let bytes = leak_bytes(source);
            self.insert_new(name, bytes);
        }
        Ok(())
    }

    /// Registers `source` under `name`, in place of any earlier source.
    pub fn replace(&mut self, name: &str, source: Vec<u8>) -> (r: Result<(), Error>)
        requires
            old(self).wf(),
        ensures
            final(self).wf(),
            r is Ok,
            final(self)@ == old(self)@.insert(name@, source@),
    {
        let name = name.to_owned();
        let bytes = leak_bytes(source);
        match self.find(&name) {
            None => self.insert_new(name, bytes),
            Some(i) => {
                let ghost n = name@;
                self.data.set(i, (name, bytes));
                self.map = Ghost(self.map@.insert(n, bytes@));
                proof {
                    assert forall|k: Seq<char>| #[trigger] self.map@.contains_key(k) implies exists|
                        j: int,
                    | 0 <= j < self.data@.len() && self.data@[j].0@ == k by {
                        if k != n {
                            let j = choose|j: int|
                                0 <= j < old(self).data@.len() && old(self).data@[j].0@ == k;
                            assert(j != i);
                            assert(self.data@[j] == old(self).data@[j]);
                        } else {
                            assert(self.data@[i as int].0@ == k);
                        }
                    }
                    assert forall|j: int| 0 <= j < self.data@.len() implies #[trigger] self.map@.contains_key(
                        self.data@[j].0@,
                    ) && self.map@[self.data@[j].0@] == self.data@[j].1@ by {
                        if j != i {
                            assert(self.data@[j] == old(self).data@[j]);
                            assert(old(self).data@[j].0@ != old(self).data@[i as int].0@);
                        }
                    }
                    assert forall|a: int, b: int|
                        0 <= a < self.data@.len() && 0 <= b < self.data@.len() && a != b implies (
                        #[trigger] self.data@[a]).0@ != (#[trigger] self.data@[b]).0@ by {
                        assert(old(self).data@[a].0@ != old(self).data@[b].0@);
                    }
                }
            },
        }
        Ok(())
    }

    /// The bytes registered under `name`; `UnknownFont(name)` where there are
    /// none.
    pub fn get(&self, name: &str) -> (r: Result<&'static [u8], Error>)
        requires
            self.wf(),
        ensures
            r is Ok == self@.contains_key(name@),
            r matches Ok(b) ==> b@ == self@[name@],
            r matches Err(e) ==> e.is_unknown_font(name@),
    {
        let name = name.to_owned();
        match self.find(&name) {
            Some(i) => {
                proof {
                    assert(self.map@.contains_key(self.data@[i as int].0@));
                }
                Ok(self.data[i].1)
            },
            None => Err(Error::UnknownFont(name)),
        }
    }
}

impl Default for FontSources {
    fn default() -> (r: FontSources)
        ensures
            r.wf(),
            r@ == Map::<Seq<char>, Seq<u8>>::empty(),
    {
        FontSources::new()
    }
}

/// The cache of parsed fonts: each font is parsed on first use and kept
/// until its source is replaced.
pub struct Fonts {
    sources: FontSources,
    data: Vec<Font>,
    parses: Ghost<nat>,
}

/// `new` holds the same parsed fonts as `old`.
pub open spec fn same_cache(new: Fonts, old: Fonts) -> bool {
    forall|n: Seq<char>|
        (#[trigger] new.is_cached(n) == old.is_cached(n)) && (old.is_cached(n) ==> new.cached(n)
            == old.cached(n))
}

/// `new` holds the same parsed fonts as `old`, but maybe for `name`.
pub open spec fn keeps_cache_except(new: Fonts, old: Fonts, name: Seq<char>) -> bool {
    forall|n: Seq<char>|
        n != name ==> (#[trigger] new.is_cached(n) == old.is_cached(n)) && (old.is_cached(n)
            ==> new.cached(n) == old.cached(n))
}

/// What `Fonts::get(name)` does: a cached font is returned as it is, with no
/// parse; otherwise the source is parsed once and the result cached.
pub open spec fn get_post(old: Fonts, new: Fonts, name: Seq<char>, r: Result<Font, Error>) -> bool {
    &&& new.wf()
    &&& new.sources() == old.sources()
    &&& old.is_cached(name) ==> new == old && r == Ok::<Font, Error>(old.cached(name))
    &&& !old.is_cached(name) && !old.sources().contains_key(name) ==> new == old && (r matches Err(
        e,
    ) && e.is_unknown_font(name))
    &&& !old.is_cached(name) && old.sources().contains_key(name) ==> {
        &&& new.parse_count() == old.parse_count() + 1
        &&& keeps_cache_except(new, old, name)
        &&& if font_parses(old.sources()[name], NON_TTC_TABLE) {
            (r matches Ok(f) && new.is_cached(name) && new.cached(name) == f)
        } else {
            !new.is_cached(name) && (r matches Err(e) && e.is_malformed_font(name))
        }
    }
    &&& r matches Ok(f) ==> f.name() == name && f.source() == new.sources()[name] && font_parses(
        f.source(),
        NON_TTC_TABLE,
    )
}

/// What `Fonts::replace(name, bytes)` does: the source changes and the
/// parse cached for it is dropped.
pub open spec fn replace_post(old: Fonts, new: Fonts, name: Seq<char>, bytes: Seq<u8>) -> bool {
    &&& new.wf()
    &&& new.sources() == old.sources().insert(name, bytes)
    &&& !new.is_cached(name)
    &&& keeps_cache_except(new, old, name)
    &&& new.parse_count() == old.parse_count()
}

impl Fonts {
    pub closed spec fn wf(&self) -> bool {
        &&& self.sources.wf()
        &&& forall|i: int|
            0 <= i < self.data@.len() ==> #[trigger] self.sources@.contains_key(self.data@[i].name())
                && self.sources@[self.data@[i].name()] == self.data@[i].source()
        &&& forall|i: int|
            0 <= i < self.data@.len() ==> font_parses(#[trigger] self.data@[i].source(), NON_TTC_TABLE)
        &&& forall|i: int, j: int|
            0 <= i < self.data@.len() && 0 <= j < self.data@.len() && i != j ==> (
            #[trigger] self.data@[i]).name() != (#[trigger] self.data@[j]).name()
    }

    /// The registered sources.
    pub closed spec fn sources(&self) -> Map<Seq<char>, Seq<u8>> {
        self.sources@
    }

    /// Whether a parse of `name` is cached.
    pub closed spec fn is_cached(&self, name: Seq<char>) -> bool {
        exists|i: int| 0 <= i < self.data@.len() && self.data@[i].name() == name
    }

    /// The parse cached for `name`.
    pub closed spec fn cached(&self, name: Seq<char>) -> Font {
        self.data@[choose|i: int| 0 <= i < self.data@.len() && self.data@[i].name() == name]
    }

    /// How many times a source was parsed.
    pub closed spec fn parse_count(&self) -> nat {
        self.parses@
    }

    pub fn new(sources: FontSources) -> (r: Fonts)
        requires
            sources.wf(),
        ensures
            r.wf(),
            r.sources() == sources@,
            r.parse_count() == 0,
            forall|n: Seq<char>| !r.is_cached(n),
    {
        Fonts { sources, data: Vec::new(), parses: Ghost(0) }
    }

    fn find(&self, name: &String) -> (r: Option<usize>)
        requires
            self.wf(),
        ensures
            match r {
                Some(i) => i < self.data@.len() && self.data@[i as int].name() == name@
                    && self.is_cached(name@) && self.cached(name@) == self.data@[i as int],
                None => !self.is_cached(name@),
            },
    {
        let mut i: usize = 0;
        while i < self.data.len()
            invariant
                self.wf(),
                i <= self.data@.len(),
                forall|j: int| 0 <= j < i ==> self.data@[j].name() != name@,
            decreases self.data@.len() - i,
        {
            if self.data[i].name_string() == *name {
                proof {
                    assert(self.data@[i as int].name() == name@);
                    let c = choose|j: int| 0 <= j < self.data@.len() && self.data@[j].name() == name@;
                    assert(self.data@[c].name() == self.data@[i as int].name());
                    assert(c == i);
                }
                return Some(i);
            }
            i = i + 1;
        }
        None
    }

    /// The parsed font registered under `name`. The first call parses the
    /// source and caches the result; later calls return the cached font.
    /// Fails with `UnknownFont` where no source is registered under the name
    /// and with `MalformedFont` where the source is not a font.
    pub fn get(&mut self, name: &str) -> (r: Result<Font, Error>)
        requires
            old(self).wf(),
        ensures
            get_post(*old(self), *final(self), name@, r),
    {
        let key = name.to_owned();
        if let Some(i) = self.find(&key) {
            proof {
                assert(self.sources@.contains_key(self.data@[i as int].name()));
            }
            return Ok(self.data[i].share());
        }
        let source = self.sources.get(name)?;
        self.parses = Ghost(self.parses@ + 1);
        let cached_font = match CachedAllsortsFont::from_source(name, source) {
            Ok(c) => c,
            Err(e) => {
                proof {
                    assert(keeps_cache_except(*self, *old(self), name@));
                }
                return Err(e);
            },
        };
        let font = Font::new(cached_font);
        assert(font.source() == self.sources@[name@]);
        assert(font.name() == name@);
        let ghost before = self.data@;
        self.data.push(font.share());
        proof {
            let last = self.data@.len() - 1;
            assert(self.data@[last] == font);
            assert(self.is_cached(name@));
            assert forall|a: int, b: int|
                0 <= a < self.data@.len() && 0 <= b < self.data@.len() && a != b implies (
                #[trigger] self.data@[a]).name() != (#[trigger] self.data@[b]).name() by {
                if a < last && b < last {
                    assert(before[a].name() != before[b].name());
                } else if a < last {
                    assert(before[a].name() != name@);
                } else if b < last {
                    assert(before[b].name() != name@);
                }
            }
            let c = choose|j: int| 0 <= j < self.data@.len() && self.data@[j].name() == name@;
            assert(c == last);
            assert forall|n: Seq<char>| n != name@ implies (#[trigger] self.is_cached(n)
                == old(self).is_cached(n)) && (old(self).is_cached(n) ==> self.cached(n) == old(
                self,
            ).cached(n)) by {
                if old(self).is_cached(n) {
                    let j = choose|j: int| 0 <= j < before.len() && before[j].name() == n;
                    assert(self.data@[j] == before[j]);
                    let k = choose|k: int| 0 <= k < self.data@.len() && self.data@[k].name() == n;
                    assert(k == j);
                }
                if self.is_cached(n) {
                    let k = choose|k: int| 0 <= k < self.data@.len() && self.data@[k].name() == n;
                    assert(k != last);
                    assert(before[k].name() == n);
                }
            }
            assert forall|i: int| 0 <= i < self.data@.len() implies #[trigger] self.sources@.contains_key(
                self.data@[i].name(),
            ) && self.sources@[self.data@[i].name()] == self.data@[i].source() by {
                if i < last {
                    assert(before[i] == self.data@[i]);
                } else {
                    assert(self.data@[i] == font);
                    assert(self.sources@.contains_key(name@));
                }
            }
        }
        Ok(font)
    }

    /// Registers a source under `name` unless one is registered there.
    pub fn add(&mut self, name: &str, source: &'static [u8]) -> (r: Result<(), Error>)
        requires
            old(self).wf(),
        ensures
            final(self).wf(),
            r is Ok,
            final(self).sources() == if old(self).sources().contains_key(name@) {
                old(self).sources()
            } else {
                old(self).sources().insert(name@, source@)
            },
            same_cache(*final(self), *old(self)),
            final(self).parse_count() == old(self).parse_count(),
    {
        let r = self.sources.add(name, source);
        proof {
            assert forall|i: int| 0 <= i < self.data@.len() implies #[trigger] self.sources@.contains_key(
                self.data@[i].name(),
            ) && self.sources@[self.data@[i].name()] == self.data@[i].source() by {
                assert(old(self).sources@.contains_key(self.data@[i].name()));
            }
        }
        r
    }

    /// Registers `source` under `name` in place of any earlier source, and
    /// drops the parse cached for it: the next `get` reads the new bytes.
    pub fn replace(&mut self, name: &str, source: Vec<u8>) -> (r: Result<(), Error>)
        requires
            old(self).wf(),
        ensures
            r is Ok,
            replace_post(*old(self), *final(self), name@, source@),
    {
        let key = name.to_owned();
        let found = self.find(&key);
        let r = self.sources.replace(name, source);
        let ghost before = self.data@;
        if let Some(i) = found {
            self.data.remove(i);
            proof {
                assert forall|n: Seq<char>| n != name@ implies (#[trigger] self.is_cached(n)
                    == old(self).is_cached(n)) && (old(self).is_cached(n) ==> self.cached(n) == old(
                    self,
                ).cached(n)) by {
                    if old(self).is_cached(n) {
                        let j = choose|j: int| 0 <= j < before.len() && before[j].name() == n;
                        assert(j != i);
                        let jj = if j < i { j } else { j - 1 };
                        assert(self.data@[jj] == before[j]);
                        let k = choose|k: int| 0 <= k < self.data@.len() && self.data@[k].name() == n;
                        let kk = if k < i { k } else { k + 1 };
                        assert(before[kk] == self.data@[k]);
                        assert(kk == j);
                    }
                    if self.is_cached(n) {
                        let k = choose|k: int| 0 <= k < self.data@.len() && self.data@[k].name() == n;
                        let kk = if k < i { k } else { k + 1 };
                        assert(before[kk] == self.data@[k]);
                    }
                }
                assert(!self.is_cached(name@)) by {
                    if self.is_cached(name@) {
                        let k = choose|k: int| 0 <= k < self.data@.len() && self.data@[k].name() == name@;
                        let kk = if k < i { k } else { k + 1 };
                        assert(before[kk] == self.data@[k]);
                    }
                }
                assert forall|a: int, b: int|
                    0 <= a < self.data@.len() && 0 <= b < self.data@.len() && a != b implies (
                    #[trigger] self.data@[a]).name() != (#[trigger] self.data@[b]).name() by {
                    let aa = if a < i { a } else { a + 1 };
                    let bb = if b < i { b } else { b + 1 };
                    assert(before[aa] == self.data@[a]);
                    assert(before[bb] == self.data@[b]);
                }
                assert forall|j: int| 0 <= j < self.data@.len() implies #[trigger] self.sources@.contains_key(
                    self.data@[j].name(),
                ) && self.sources@[self.data@[j].name()] == self.data@[j].source() by {
                    let jj = if j < i { j } else { j + 1 };
                    assert(before[jj] == self.data@[j]);
                    assert(old(self).sources@.contains_key(before[jj].name()));
                    assert(before[jj].name() != name@);
                }
            }
        } else {
            proof {
                assert forall|j: int| 0 <= j < self.data@.len() implies #[trigger] self.sources@.contains_key(
                    self.data@[j].name(),
                ) && self.sources@[self.data@[j].name()] == self.data@[j].source() by {
                    assert(old(self).sources@.contains_key(self.data@[j].name()));
                }
            }
        }
        r
    }
}

/// A cached parse is always of a registered source.
pub proof fn lemma_cached_registered(f: Fonts, name: Seq<char>)
    requires
        f.wf(),
        f.is_cached(name),
    ensures
        f.sources().contains_key(name),
        font_parses(f.sources()[name], NON_TTC_TABLE),
{
    let i = choose|i: int| 0 <= i < f.data@.len() && f.data@[i].name() == name;
    assert(f.sources@.contains_key(f.data@[i].name()));
}

/// Getting a font twice: the second call returns the same parsed font as the
/// first, parses nothing and changes nothing.
pub proof fn lemma_get_idempotent(
    f0: Fonts,
    f1: Fonts,
    f2: Fonts,
    name: Seq<char>,
    r1: Result<Font, Error>,
    r2: Result<Font, Error>,
)
    requires
        get_post(f0, f1, name, r1),
        get_post(f1, f2, name, r2),
        r1 is Ok,
    ensures
        r2 == r1,
        f2 == f1,
        f2.parse_count() == f1.parse_count(),
{
}

/// Replacing a source and then getting the font: the font returned is read
/// from the new bytes, by a fresh parse.
pub proof fn lemma_replace_then_get(
    f0: Fonts,
    f1: Fonts,
    f2: Fonts,
    name: Seq<char>,
    bytes: Seq<u8>,
    r: Result<Font, Error>,
)
    requires
        replace_post(f0, f1, name, bytes),
        get_post(f1, f2, name, r),
    ensures
        f2.parse_count() == f1.parse_count() + 1,
        r is Ok == font_parses(bytes, NON_TTC_TABLE),
        r matches Ok(f) ==> f.source() == bytes,
{
}

} // verus!
