//! The fonts of one output document: a glyph collector for each font used,
//! and, once the fonts are finalized, the embedding handle of its subset.
use vstd::prelude::*;

use crate::collector::{collect_all, collected, glyph_ids, lemma_collect_extends, localized, new_collector};
use crate::error::Error;
use crate::font::{
    collected_typeset, shaped_of, LATN, font_parses, get_post, lemma_cached_registered, subset_bytes, typesets, Fonts,
    NON_TTC_TABLE,
};
use crate::text::{shaped_glyphs, Features, GlyphPosition, TextPosition};

verus! {

/// A font used by the document. Before finalization it collects glyphs;
/// after it, `font_ref` is the index of its subset among the embedded fonts.
struct RenderFont {
    name: String,
    glyph_collector: indexmap::IndexSet<u16>,
    font_ref: Option<usize>,
}

impl RenderFont {
    fn new(name: &str) -> (r: RenderFont)
        ensures
            r.name@ == name@,
            collected(r.glyph_collector) == seq![0u16],
            r.font_ref is None,
    {
        RenderFont { name: name.to_owned(), glyph_collector: new_collector(), font_ref: None }
    }
}

/// The fonts used by one document.
pub struct RenderFonts {
    fonts: Fonts,
    render_fonts: Vec<RenderFont>,
}

/// Every font of the document can be subset: its source is registered, it
/// parses and the subset of its glyphs can be built.
pub open spec fn can_finalize(sources: Map<Seq<char>, Seq<u8>>, name: Seq<char>, glyphs: Seq<u16>) -> bool {
    &&& sources.contains_key(name)
    &&& font_parses(sources[name], NON_TTC_TABLE)
    &&& subset_bytes(sources[name], NON_TTC_TABLE, glyphs) is Some
}

/// The position of the entry of the font named `name`: where it is, or at
/// the end for a font not used yet.
pub open spec fn entry_of(fonts: RenderFonts, name: Seq<char>) -> int {
    if fonts.names().contains(name) {
        fonts.names().index_of(name)
    } else {
        fonts.names().len() as int
    }
}

/// What `RenderFonts::typeset(name, ..)` does, where `k` is the position of
/// the font's entry: an entry for a font not seen before is appended with
/// glyph 0 collected; a finalized font refuses; otherwise the text is
/// typeset against the registered source and its glyphs collected, and on
/// failure the entry's glyphs stay. Each error comes exactly in its case;
/// success is owed where the source is registered and typesets, but for a
/// poisoned lock.
pub open spec fn typeset_post(
    old: RenderFonts,
    new: RenderFonts,
    name: Seq<char>,
    text: Seq<char>,
    tags: Seq<u32>,
    r: Result<TextPosition, Error>,
) -> bool {
    let sources = old.fonts().sources();
    let n = old.names().len();
    let k = entry_of(old, name);
    let before = if k < n {
        old.glyphs()[k]
    } else {
        seq![0u16]
    };
    let before_ref = if k < n {
        old.font_refs()[k]
    } else {
        None
    };
    &&& 0 <= k <= n
    &&& k < n ==> old.names()[k] == name && new.names() == old.names()
    &&& k == n ==> !old.names().contains(name) && new.names() == old.names().push(name)
    &&& new.glyphs().len() == new.names().len()
    &&& new.font_refs().len() == new.names().len()
    &&& forall|j: int|
        0 <= j < n && j != k ==> new.glyphs()[j] == old.glyphs()[j] && new.font_refs()[j]
            == old.font_refs()[j]
    &&& new.font_refs()[k] == before_ref
    &&& r is Err ==> new.glyphs()[k] == before
    &&& before_ref is Some ==> new.fonts() == old.fonts()
    &&& (r matches Err(e) && e.is_font_finalized(name)) <==> before_ref is Some
    &&& before_ref is None ==> exists|g| get_post(old.fonts(), new.fonts(), name, g)
    &&& (r matches Err(e) && e.is_unknown_font(name)) <==> (before_ref is None
        && !sources.contains_key(name))
    &&& before_ref is None && sources.contains_key(name) && !font_parses(sources[name], NON_TTC_TABLE)
        ==> (r matches Err(e) && e.is_malformed_font(name))
    &&& before_ref is None && sources.contains_key(name) && font_parses(sources[name], NON_TTC_TABLE)
        ==> (r is Ok || (r matches Err(e) && (e.is_lock_error(name) || (e.is_malformed_font(name)
        && !typesets(sources[name], text, tags)))))
    &&& r matches Err(e) ==> e.is_font_finalized(name) || e.is_unknown_font(name)
        || e.is_malformed_font(name) || e.is_lock_error(name)
    &&& r matches Ok(t) ==> sources.contains_key(name) && collected_typeset(
        sources[name],
        text,
        tags,
        before,
        new.glyphs()[k],
        t,
    )
}

/// What `RenderFonts::complete_and_write` does: it succeeds exactly where
/// every font can be finalized; then font `i` gets handle `i` and subset
/// `i` is the subset of its glyphs, in their order. On failure some font
/// cannot be finalized, and the error names it.
pub open spec fn complete_post(old: RenderFonts, new: RenderFonts, r: Result<Vec<Vec<u8>>, Error>) -> bool {
    let names = old.names();
    let glyphs = old.glyphs();
    let sources = old.fonts().sources();
    &&& new.wf()
    &&& new.names() == names
    &&& new.glyphs() == glyphs
    &&& new.fonts().sources() == sources
    &&& r is Ok <==> forall|i: int|
        0 <= i < names.len() ==> can_finalize(sources, #[trigger] names[i], glyphs[i])
    &&& r matches Ok(blobs) ==> {
        &&& blobs@.len() == names.len()
        &&& forall|i: int| 0 <= i < blobs@.len() ==> #[trigger] new.font_refs()[i] == Some(i as usize)
        &&& forall|i: int|
            0 <= i < blobs@.len() ==> subset_bytes(sources[names[i]], NON_TTC_TABLE, glyphs[i]) == Some(
                #[trigger] blobs@[i]@,
            )
    }
    &&& r matches Err(e) ==> exists|i: int|
        0 <= i < names.len() && !can_finalize(sources, #[trigger] names[i], glyphs[i]) && (
        e.is_unknown_font(names[i]) || e.is_malformed_font(names[i]))
}

impl RenderFonts {
    pub closed spec fn wf(&self) -> bool {
        &&& self.fonts.wf()
        &&& forall|i: int, j: int|
            0 <= i < self.render_fonts@.len() && 0 <= j < self.render_fonts@.len() && i != j ==> (
            #[trigger] self.render_fonts@[i]).name@ != (#[trigger] self.render_fonts@[j]).name@
        &&& forall|i: int|
            0 <= i < self.render_fonts@.len() ==> {
                let g = collected(#[trigger] self.render_fonts@[i].glyph_collector);
                g.no_duplicates() && g.len() > 0 && g[0] == 0
            }
    }

    /// The names of the fonts used, in order of first use.
    pub closed spec fn names(&self) -> Seq<Seq<char>> {
        self.render_fonts@.map_values(|f: RenderFont| f.name@)
    }

    /// The glyphs collected for each font, in the order of `names`.
    pub closed spec fn glyphs(&self) -> Seq<Seq<u16>> {
        self.render_fonts@.map_values(|f: RenderFont| collected(f.glyph_collector))
    }

    /// The embedding handle of each font, in the order of `names`.
    pub closed spec fn font_refs(&self) -> Seq<Option<usize>> {
        self.render_fonts@.map_values(|f: RenderFont| f.font_ref)
    }

    /// The font cache the document typesets against.
    pub closed spec fn fonts(&self) -> Fonts {
        self.fonts
    }

    pub fn new(fonts: Fonts) -> (r: RenderFonts)
        requires
            fonts.wf(),
        ensures
            r.wf(),
            r.fonts() == fonts,
            r.names().len() == 0,
            r.glyphs().len() == 0,
            r.font_refs().len() == 0,
    {
        let r = RenderFonts { fonts, render_fonts: Vec::new() };
        proof {
            assert(r.names() =~= Seq::<Seq<char>>::empty());
            assert(r.glyphs() =~= Seq::<Seq<u16>>::empty());
            assert(r.font_refs() =~= Seq::<Option<usize>>::empty());
        }
        r
    }

    fn find(&self, name: &String) -> (r: Option<usize>)
        requires
            self.wf(),
        ensures
            match r {
                Some(i) => i < self.names().len() && self.names()[i as int] == name@,
                None => !self.names().contains(name@),
            },
    {
        let mut i: usize = 0;
        while i < self.render_fonts.len()
            invariant
                i <= self.render_fonts@.len(),
                forall|j: int| 0 <= j < i ==> self.render_fonts@[j].name@ != name@,
            decreases self.render_fonts@.len() - i,
        {
            if self.render_fonts[i].name == *name {
                return Some(i);
            }
            i = i + 1;
        }
        proof {
            if self.names().contains(name@) {
                let j = choose|j: int| 0 <= j < self.names().len() && self.names()[j] == name@;
                assert(self.render_fonts@[j].name@ == name@);
            }
        }
        None
    }

    /// Typesets `text` in the font named `font_name` and collects its glyphs
    /// for the font's subset; the glyph ids of the result are local ids. The
    /// font is entered in the document on first use. Fails with
    /// `FontFinalized` once the font's subset is built, and with the errors
    /// of getting and typesetting the font.
    pub fn typeset(&mut self, font_name: &str, text: &str, features: &Features) -> (r: Result<
        TextPosition,
        Error,
    >)
        requires
            old(self).wf(),
        ensures
            final(self).wf(),
            typeset_post(*old(self), *final(self), font_name@, text@, features.tags@, r),
    {
        let key = font_name.to_owned();
        let k = match self.find(&key) {
            Some(i) => i,
            None => {
                self.render_fonts.push(RenderFont::new(font_name));
                self.render_fonts.len() - 1
            },
        };
        let ghost mid = self.render_fonts@;
        proof {
            if old(self).names().contains(font_name@) {
                let j = old(self).names().index_of(font_name@);
                assert(old(self).names()[j] == font_name@);
                assert(old(self).names()[k as int] == font_name@);
                assert(old(self).render_fonts@[j].name@ == old(self).render_fonts@[k as int].name@);
                assert(j == k);
            }
            assert(entry_of(*old(self), font_name@) == k);
            assert forall|a: int, b: int|
                0 <= a < self.render_fonts@.len() && 0 <= b < self.render_fonts@.len() && a != b implies (
                #[trigger] self.render_fonts@[a]).name@ != (#[trigger] self.render_fonts@[b]).name@ by {
                if a < old(self).render_fonts@.len() && b < old(self).render_fonts@.len() {
                    assert(old(self).render_fonts@[a] == self.render_fonts@[a]);
                    assert(old(self).render_fonts@[b] == self.render_fonts@[b]);
                } else if a < old(self).render_fonts@.len() {
                    assert(old(self).render_fonts@[a] == self.render_fonts@[a]);
                    assert(old(self).names()[a] == self.render_fonts@[a].name@);
                } else if b < old(self).render_fonts@.len() {
                    assert(old(self).render_fonts@[b] == self.render_fonts@[b]);
                    assert(old(self).names()[b] == self.render_fonts@[b].name@);
                }
            }
            assert(self.wf());
        }
        if self.render_fonts[k].font_ref.is_some() {
            proof {
                assert(self.names() =~= old(self).names());
                assert(self.glyphs() =~= old(self).glyphs());
                assert(self.font_refs() =~= old(self).font_refs());
                assert(typeset_post(*old(self), *self, font_name@, text@, features.tags@, Err(Error::FontFinalized(key))));
            }
            return Err(Error::FontFinalized(key));
        }
        let ghost fonts_before = self.fonts;
        let got = self.fonts.get(font_name);
        proof {
            assert(fonts_before == old(self).fonts);
            assert(get_post(old(self).fonts(), self.fonts(), font_name@, got));
        }
        let font = match got {
            Ok(f) => f,
            Err(e) => {
                proof {
                    assert(self.names() =~= if k < old(self).names().len() {
                        old(self).names()
                    } else {
                        old(self).names().push(font_name@)
                    });
                    if old(self).fonts().is_cached(font_name@) {
                        lemma_cached_registered(old(self).fonts(), font_name@);
                    }
                    assert(typeset_post(*old(self), *self, font_name@, text@, features.tags@, Err(e)));
                }
                return Err(e);
            },
        };
        let ghost fonts_after = self.fonts;
        let ghost before = collected(self.render_fonts@[k as int].glyph_collector);
        let r = font.typeset_collect(&mut self.render_fonts[k].glyph_collector, text, features);
        proof {
            assert(self.fonts == fonts_after);
            assert(get_post(old(self).fonts(), self.fonts(), font_name@, got));
            if r is Ok {
                let t = r->Ok_0;
                let shaped = choose|shaped: Seq<GlyphPosition>|
                    {
                        &&& shaped.len() == t.positions@.len()
                        &&& collected(self.render_fonts@[k as int].glyph_collector) == collect_all(
                            before,
                            glyph_ids(shaped),
                        )
                        &&& forall|i: int|
                            0 <= i < shaped.len() ==> localized(
                                collected(self.render_fonts@[k as int].glyph_collector),
                                #[trigger] shaped[i],
                                t.positions@[i],
                            )
                    };
                lemma_collect_extends(before, glyph_ids(shaped));
                assert(collect_all(before, glyph_ids(shaped)).subrange(0, before.len() as int)[0] == 0);
            }
            assert(self.render_fonts@.len() == mid.len());
            assert forall|j: int| 0 <= j < mid.len() && j != k implies self.render_fonts@[j] == mid[j] by {}
            assert(self.render_fonts@[k as int].name == mid[k as int].name);
            assert(self.render_fonts@[k as int].font_ref == mid[k as int].font_ref);
            if old(self).fonts().is_cached(font_name@) {
                lemma_cached_registered(old(self).fonts(), font_name@);
            }
            assert(self.names() =~= if k < old(self).names().len() {
                        old(self).names()
                    } else {
                        old(self).names().push(font_name@)
                    });
            assert(typeset_post(*old(self), *self, font_name@, text@, features.tags@, r));
        }
        r
    }

    /// Finalizes the fonts: builds the subset of each font used, from the
    /// glyphs collected for it in their order, and gives the font the
    /// embedding handle `i`, the position of its subset in the result. The
    /// caller embeds the subsets in that order. Fails, with nothing embedded,
    /// where a font cannot be got or subset.
    pub fn complete_and_write(&mut self) -> (r: Result<Vec<Vec<u8>>, Error>)
        requires
            old(self).wf(),
        ensures
            complete_post(*old(self), *final(self), r),
    {
        let ghost names = old(self).names();
        let ghost glyphs = old(self).glyphs();
        let ghost sources = old(self).fonts().sources();
        let mut blobs: Vec<Vec<u8>> = Vec::new();
        let mut i: usize = 0;
        while i < self.render_fonts.len()
            invariant
                names == old(self).names(),
                glyphs == old(self).glyphs(),
                sources == old(self).fonts().sources(),
                self.wf(),
                self.names() == names,
                self.glyphs() == glyphs,
                self.fonts().sources() == sources,
                i <= self.render_fonts@.len(),
                blobs@.len() == i,
                forall|j: int| 0 <= j < i ==> #[trigger] self.font_refs()[j] == Some(j as usize),
                forall|j: int|
                    0 <= j < i ==> subset_bytes(sources[names[j]], NON_TTC_TABLE, glyphs[j]) == Some(
                        #[trigger] blobs@[j]@,
                    ),
                forall|j: int| 0 <= j < i ==> can_finalize(sources, #[trigger] names[j], glyphs[j]),
            decreases self.render_fonts@.len() - i,
        {
            let ghost start_rf = self.render_fonts@;
            let ghost start_refs = self.font_refs();
            let name = self.render_fonts[i].name.clone();
            proof {
                assert(names[i as int] == name@);
                assert(glyphs[i as int] == collected(self.render_fonts@[i as int].glyph_collector));
            }
            let got = self.fonts.get(name.as_str());
            let font = match got {
                Ok(f) => f,
                Err(e) => {
                    proof {
                        if self.fonts.is_cached(name@) {
                            lemma_cached_registered(self.fonts, name@);
                        }
                        assert(!can_finalize(sources, names[i as int], glyphs[i as int]));
                        assert(self.names() == names);
                        assert(self.glyphs() == glyphs);
                    }
                    return Err(e);
                },
            };
            let sub = font.subset(&self.render_fonts[i].glyph_collector);
            let blob = match sub {
                Ok(Some(b)) => b,
                Ok(None) => {
                    proof {
                        assert(collected(self.render_fonts@[i as int].glyph_collector).len() > 0);
                    }
                    return Err(Error::MalformedFont(name));
                },
                Err(e) => {
                    proof {
                        assert(!can_finalize(sources, names[i as int], glyphs[i as int]));
                        assert(self.names() == names);
                        assert(self.glyphs() == glyphs);
                    }
                    return Err(e);
                },
            };
            proof {
                if self.fonts.is_cached(name@) {
                    lemma_cached_registered(self.fonts, name@);
                }
                assert(sources.contains_key(name@));
                assert(subset_bytes(sources[names[i as int]], NON_TTC_TABLE, glyphs[i as int]) == Some(blob@));
                assert(can_finalize(sources, names[i as int], glyphs[i as int]));
            }
            let ghost prev = self.render_fonts@;
            let ghost prev_blobs = blobs@;
            self.render_fonts[i].font_ref = Some(i);
            blobs.push(blob);
            proof {
                assert forall|j: int| 0 <= j <= i implies self.font_refs()[j] == Some(j as usize)
                    && subset_bytes(sources[names[j]], NON_TTC_TABLE, glyphs[j]) == Some(
                    #[trigger] blobs@[j]@,
                ) by {
                    if j < i {
                        assert(prev == start_rf);
                        assert(start_refs[j] == Some(j as usize));
                        assert(blobs@[j] == prev_blobs[j]);
                        assert(self.render_fonts@[j] == prev[j]);
                    } else {
                        assert(self.render_fonts@[i as int].font_ref == Some(i));
                        assert(self.font_refs()[j] == self.render_fonts@[j].font_ref);
                        assert(blobs@[i as int]@ == blob@);
                    }
                }
                assert forall|j: int| 0 <= j < self.render_fonts@.len() && j != i implies self.render_fonts@[j]
                    == prev[j] by {}
                assert forall|j: int| 0 <= j <= i implies #[trigger] self.font_refs()[j] == Some(
                    j as usize,
                ) by {
                    assert(subset_bytes(sources[names[j]], NON_TTC_TABLE, glyphs[j]) == Some(blobs@[j]@));
                }
                assert(self.names() =~= names);
                assert(self.glyphs() =~= glyphs);
                assert forall|a: int, b: int|
                    0 <= a < self.render_fonts@.len() && 0 <= b < self.render_fonts@.len() && a != b implies (
                    #[trigger] self.render_fonts@[a]).name@ != (#[trigger] self.render_fonts@[b]).name@ by {
                    assert(prev[a].name@ != prev[b].name@);
                }
                assert forall|j: int| 0 <= j < self.render_fonts@.len() implies {
                    let g = collected(#[trigger] self.render_fonts@[j].glyph_collector);
                    g.no_duplicates() && g.len() > 0 && g[0] == 0
                } by {
                    assert(collected(self.render_fonts@[j].glyph_collector) == collected(prev[j].glyph_collector));
                }
            }
            i = i + 1;
        }
        proof {
            assert(blobs@.len() == names.len());
            assert(self.font_refs().len() == names.len());
            assert(self.names() == names);
        }
        Ok(blobs)
    }

    /// The embedding handle of the font named `name`: `None` before the
    /// fonts are finalized, or for a font the document never used.
    pub fn get_font_ref(&self, name: &str) -> (r: Option<usize>)
        requires
            self.wf(),
        ensures
            !self.names().contains(name@) ==> r is None,
            forall|k: int|
                0 <= k < self.names().len() && self.names()[k] == name@ ==> r == self.font_refs()[k],
    {
        let key = name.to_owned();
        match self.find(&key) {
            Some(i) => {
                proof {
                    assert forall|k: int|
                        0 <= k < self.names().len() && self.names()[k] == name@ implies k == i by {
                        if k != i {
                            assert(self.render_fonts@[k].name@ != self.render_fonts@[i as int].name@);
                        }
                    }
                }
                self.render_fonts[i].font_ref
            },
            None => None,
        }
    }
}

/// The glyphs that `text` shapes into with `tags` against the font read
/// from `bytes`, with the font's own glyph ids.
pub open spec fn shaped_text(bytes: Seq<u8>, text: Seq<char>, tags: Seq<u32>) -> Seq<GlyphPosition> {
    shaped_glyphs(shaped_of(bytes, LATN, text, tags)->Some_0)
}

/// Local ids within one document: when two texts are typeset in turn
/// against the same font, a font glyph gets the same local id in both
/// results, and glyph 0 gets local id 0.
pub proof fn lemma_typeset_twice(
    f0: RenderFonts,
    f1: RenderFonts,
    f2: RenderFonts,
    name: Seq<char>,
    text1: Seq<char>,
    tags1: Seq<u32>,
    text2: Seq<char>,
    tags2: Seq<u32>,
    r1: TextPosition,
    r2: TextPosition,
)
    requires
        f0.wf(),
        f1.wf(),
        typeset_post(f0, f1, name, text1, tags1, Ok(r1)),
        typeset_post(f1, f2, name, text2, tags2, Ok(r2)),
    ensures
        ({
            let s1 = shaped_text(f0.fonts().sources()[name], text1, tags1);
            let s2 = shaped_text(f1.fonts().sources()[name], text2, tags2);
            &&& forall|i: int, j: int|
                0 <= i < s1.len() && 0 <= j < s2.len() && s1[i].glyph_index == s2[j].glyph_index
                    ==> (#[trigger] r1.positions@[i]).glyph_index == (#[trigger] r2.positions@[j]).glyph_index
            &&& forall|i: int|
                0 <= i < s1.len() && s1[i].glyph_index == 0 ==> (#[trigger] r1.positions@[i]).glyph_index
                    == 0
            &&& forall|j: int|
                0 <= j < s2.len() && s2[j].glyph_index == 0 ==> (#[trigger] r2.positions@[j]).glyph_index
                    == 0
        }),
{
    let k1 = entry_of(f0, name);
    let k2 = entry_of(f1, name);
    assert(f1.names()[k1] == name);
    assert(f1.names().contains(name));
    let j = f1.names().index_of(name);
    assert(f1.names()[j] == name);
    assert(f1.render_fonts@[j].name@ == f1.render_fonts@[k1].name@);
    assert(k2 == k1);
    let g1 = f1.glyphs()[k1];
    let g2 = f2.glyphs()[k1];
    assert(g1 == collected(f1.render_fonts@[k1].glyph_collector));
    assert(g1.no_duplicates() && g1.len() > 0 && g1[0] == 0);
    let src = f0.fonts().sources()[name];
    assert(f1.fonts().sources() == f0.fonts().sources()) by {
        let g = choose|g| get_post(f0.fonts(), f1.fonts(), name, g);
    }
    let s1 = shaped_text(src, text1, tags1);
    let s2 = shaped_text(src, text2, tags2);
    lemma_collect_extends(g1, glyph_ids(s2));
    assert(g2.subrange(0, g1.len() as int) == g1);
    assert(g2.no_duplicates());
    assert forall|i: int| 0 <= i < s1.len() implies 0 <= (#[trigger] r1.positions@[i]).glyph_index
        < g1.len() && g2[r1.positions@[i].glyph_index as int] == s1[i].glyph_index by {
        assert(localized(g1, s1[i], r1.positions@[i]));
        assert(g2[r1.positions@[i].glyph_index as int] == g2.subrange(0, g1.len() as int)[r1.positions@[i].glyph_index as int]);
    }
    assert forall|i: int, j: int|
        0 <= i < s1.len() && 0 <= j < s2.len() && s1[i].glyph_index == s2[j].glyph_index implies (
        #[trigger] r1.positions@[i]).glyph_index == (#[trigger] r2.positions@[j]).glyph_index by {
        assert(localized(g2, s2[j], r2.positions@[j]));
    }
    assert forall|i: int| 0 <= i < s1.len() && s1[i].glyph_index == 0 implies (
    #[trigger] r1.positions@[i]).glyph_index == 0 by {
        assert(localized(g1, s1[i], r1.positions@[i]));
    }
    assert(g2[0] == 0) by {
        assert(g2[0] == g2.subrange(0, g1.len() as int)[0]);
    }
    assert forall|j: int| 0 <= j < s2.len() && s2[j].glyph_index == 0 implies (
    #[trigger] r2.positions@[j]).glyph_index == 0 by {
        assert(localized(g2, s2[j], r2.positions@[j]));
    }
}

} // verus!
