//! The font atlas builder: font sources in fallback order, the codepoints that the
//! atlas has to cover, and the plan that shares those codepoints out among the sources.
//!
//! A codepoint goes to the first source, in registration order, that has a glyph for
//! it. A codepoint that no source has a glyph for goes to none: the toolkit draws its
//! fallback glyph in its place.

use vstd::prelude::*;
use crate::glyph_table::{
    encode_glyph_table,
    glyph_table_of,
    lemma_glyph_table_is_valid,
    table_covers,
    valid_glyph_table,
};
use crate::codepoints::{
    append_codepoint,
    canonical,
    drawable,
    ranges_cover,
    ranges_set,
    CodepointRange,
    CodepointSet,
    MAX_CODEPOINT,
};

verus! {

/// A font source as a plain value: the bytes of the font file and the codepoints it
/// has glyphs for.
pub struct FontSourceModel {
    pub data: Seq<u8>,
    pub coverage: Set<u32>,
}

/// One line of an atlas plan as a plain value.
pub struct AtlasEntryModel {
    /// The font source that the glyphs are taken from, by its place in registration order.
    pub source: int,
    /// The height in pixels that the glyphs are rasterized at.
    pub pixel_height: u32,
    /// Whether the glyphs are merged into the font that the first entry started.
    pub merge: bool,
    /// The codepoints whose glyphs are taken from this source.
    pub glyphs: Set<u32>,
}

/// The first index from `from` on whose set holds `c`.
pub open spec fn first_holding(sets: Seq<Set<u32>>, c: u32, from: int) -> Option<int>
    decreases sets.len() - from,
{
    if from < 0 || from >= sets.len() {
        None
    } else if sets[from].contains(c) {
        Some(from)
    } else {
        first_holding(sets, c, from + 1)
    }
}

/// `first_holding` finds `at` when `at` holds `c` and nothing between `from` and `at`
/// does.
pub proof fn lemma_first_holding_some(sets: Seq<Set<u32>>, c: u32, from: int, at: int)
    requires
        0 <= from <= at < sets.len(),
        sets[at].contains(c),
        forall|k: int| from <= k < at ==> !(#[trigger] sets[k]).contains(c),
    ensures
        first_holding(sets, c, from) == Some(at),
    decreases at - from,
{
    if from < at {
        assert(!sets[from].contains(c));
        lemma_first_holding_some(sets, c, from + 1, at);
    }
}

/// `first_holding` finds nothing when nothing from `from` on holds `c`.
pub proof fn lemma_first_holding_none(sets: Seq<Set<u32>>, c: u32, from: int)
    requires
        0 <= from,
        forall|k: int| from <= k < sets.len() ==> !(#[trigger] sets[k]).contains(c),
    ensures
        first_holding(sets, c, from) is None,
    decreases sets.len() - from,
{
    if from < sets.len() {
        assert(!sets[from].contains(c));
        lemma_first_holding_none(sets, c, from + 1);
    }
}

/// What `first_holding` finds holds `c`, lies at or after `from`, and is the first to
/// do so.
pub proof fn lemma_first_holding_found(sets: Seq<Set<u32>>, c: u32, from: int)
    requires
        0 <= from,
    ensures
        first_holding(sets, c, from) matches Some(at) ==> {
            &&& from <= at < sets.len()
            &&& sets[at].contains(c)
            &&& forall|k: int| from <= k < at ==> !(#[trigger] sets[k]).contains(c)
        },
        first_holding(sets, c, from) is None ==> forall|k: int|
            from <= k < sets.len() ==> !(#[trigger] sets[k]).contains(c),
    decreases sets.len() - from,
{
    if from < sets.len() && !sets[from].contains(c) {
        lemma_first_holding_found(sets, c, from + 1);
    }
}

/// The source that an atlas plan takes the glyph of `c` from: that of the first entry
/// that lists `c`. `None` stands for the toolkit's fallback glyph.
pub open spec fn atlas_resolve(entries: Seq<AtlasEntryModel>, c: u32) -> Option<int> {
    match first_holding(entries.map_values(|e: AtlasEntryModel| e.glyphs), c, 0) {
        Some(at) => Some(entries[at].source),
        None => None,
    }
}

/// The codepoints that a text needs glyphs for.
pub open spec fn text_codepoints(text: Seq<char>) -> Set<u32> {
    Set::new(|c: u32| drawable(c) && exists|i: int| 0 <= i < text.len() && #[trigger] text[i] as u32 == c)
}

/// The builder as a plain value.
pub struct FontBuilderModel {
    /// The font sources, first registered first.
    pub sources: Seq<FontSourceModel>,
    /// The codepoints that the atlas has to cover.
    pub codepoints: Set<u32>,
    /// Whether anything was registered since the last build.
    pub dirty: bool,
}

impl FontBuilderModel {
    /// Nothing registered, nothing to build.
    pub open spec fn empty() -> FontBuilderModel {
        FontBuilderModel { sources: Seq::empty(), codepoints: Set::empty(), dirty: false }
    }

    /// A source is added behind those that are there.
    pub open spec fn register_font(self, source: FontSourceModel) -> FontBuilderModel {
        FontBuilderModel { sources: self.sources.push(source), dirty: true, ..self }
    }

    /// The codepoints from `first` to `last` that a glyph can stand for are asked for.
    pub open spec fn register_codepoints(self, first: u32, last: u32) -> FontBuilderModel {
        FontBuilderModel {
            codepoints: self.codepoints.union(Set::new(|c: u32| first <= c <= last && drawable(c))),
            dirty: true,
            ..self
        }
    }

    /// Whatever `text` needs and was not asked for before is asked for now. The atlas
    /// has to be built again only if there was such a codepoint.
    pub open spec fn register_text(self, text: Seq<char>) -> FontBuilderModel {
        FontBuilderModel {
            codepoints: self.codepoints.union(text_codepoints(text)),
            dirty: self.dirty || !text_codepoints(text).subset_of(self.codepoints),
            ..self
        }
    }

    /// Only codepoints that a glyph can stand for are asked for.
    pub open spec fn wf(self) -> bool {
        forall|c: u32| self.codepoints.contains(c) ==> drawable(c)
    }

    /// The dirty flag is cleared.
    pub open spec fn clean(self) -> FontBuilderModel {
        FontBuilderModel { dirty: false, ..self }
    }

    /// The first source, in registration order, that has a glyph for `c`.
    pub open spec fn first_covering(self, c: u32) -> Option<int> {
        first_holding(self.sources.map_values(|s: FontSourceModel| s.coverage), c, 0)
    }

    /// The codepoints whose glyphs the atlas takes from source `i`: the registered
    /// ones that `i` is the first source to cover.
    pub open spec fn glyphs_of(self, i: int) -> Set<u32> {
        Set::new(|c: u32| self.codepoints.contains(c) && self.first_covering(c) == Some(i))
    }

    /// The glyph that a registered codepoint is drawn with: that of the first source
    /// that covers it. A codepoint that was not registered, or that no source covers,
    /// is drawn with the fallback glyph (`None`).
    pub open spec fn resolve(self, c: u32) -> Option<int> {
        if self.codepoints.contains(c) {
            self.first_covering(c)
        } else {
            None
        }
    }

    /// The atlas plan: one entry for each source, in registration order, all at
    /// `pixel_height`; every entry after the first is merged into the first one's font.
    pub open spec fn build(self, pixel_height: u32) -> Seq<AtlasEntryModel> {
        Seq::new(
            self.sources.len(),
            |i: int|
                AtlasEntryModel { source: i, pixel_height, merge: i > 0, glyphs: self.glyphs_of(i) },
        )
    }
}

/// The atlas that is built from a builder draws every codepoint as the builder
/// resolves it: a registered codepoint with the glyph of the first source, in
/// registration order, that has one, every other codepoint with the fallback glyph.
pub proof fn lemma_atlas_resolves_to_first_source(
    builder: FontBuilderModel,
    pixel_height: u32,
    c: u32,
)
    ensures
        atlas_resolve(builder.build(pixel_height), c) == builder.resolve(c),
{
    let entries = builder.build(pixel_height);
    let glyphs = entries.map_values(|e: AtlasEntryModel| e.glyphs);
    let coverage = builder.sources.map_values(|s: FontSourceModel| s.coverage);
    assert forall|k: int| 0 <= k < glyphs.len() implies ((#[trigger] glyphs[k]).contains(c) <==> (
    builder.codepoints.contains(c) && builder.first_covering(c) == Some(k))) by {
        assert(glyphs[k] == builder.glyphs_of(k));
    }
    lemma_first_holding_found(coverage, c, 0);
    if builder.codepoints.contains(c) && builder.first_covering(c) is Some {
        let at = builder.first_covering(c).unwrap();
        lemma_first_holding_some(glyphs, c, 0, at);
        assert(entries[at].source == at);
    } else {
        lemma_first_holding_none(glyphs, c, 0);
    }
}

/// The plan depends on the sources and the codepoints alone, not on the dirty flag.
pub proof fn lemma_build_ignores_dirty_flag(builder: FontBuilderModel, pixel_height: u32)
    ensures
        builder.clean().build(pixel_height) == builder.build(pixel_height),
{
    assert forall|i: int| 0 <= i < builder.sources.len() implies builder.clean().glyphs_of(i)
        == builder.glyphs_of(i) by {
        assert(builder.clean().glyphs_of(i) =~= builder.glyphs_of(i));
    }
    assert(builder.clean().build(pixel_height) =~= builder.build(pixel_height));
}

/// Every entry of a built atlas takes its glyphs from a source that has them, and no
/// codepoint is listed by two entries.
pub proof fn lemma_atlas_entries_are_disjoint(
    builder: FontBuilderModel,
    pixel_height: u32,
    i: int,
    j: int,
    c: u32,
)
    requires
        0 <= i < builder.sources.len(),
        0 <= j < builder.sources.len(),
        builder.build(pixel_height)[i].glyphs.contains(c),
    ensures
        builder.sources[i].coverage.contains(c),
        builder.codepoints.contains(c),
        builder.build(pixel_height)[j].glyphs.contains(c) ==> i == j,
{
    let coverage = builder.sources.map_values(|s: FontSourceModel| s.coverage);
    lemma_first_holding_found(coverage, c, 0);
}

/// A font file: its bytes, and the codepoints it has glyphs for.
#[derive(Debug)]
pub struct FontSource {
    data: Vec<u8>,
    coverage: CodepointSet,
}

impl View for FontSource {
    type V = FontSourceModel;

    closed spec fn view(&self) -> FontSourceModel {
        FontSourceModel { data: self.data@, coverage: self.coverage@ }
    }
}

impl FontSource {
    /// The coverage is stored as its canonical list.
    pub closed spec fn wf(&self) -> bool {
        self.coverage.wf()
    }

    /// A font source from the bytes of a font file and the ranges of codepoints that
    /// the file has glyphs for, in any order.
    pub fn new(data: Vec<u8>, coverage: &Vec<CodepointRange>) -> (source: FontSource)
        ensures
            source.wf(),
            source@.data == data@,
            source@.coverage == ranges_set(coverage@),
    {
        FontSource { data, coverage: CodepointSet::from_ranges(coverage) }
    }

    /// The bytes of the font file.
    pub fn data(&self) -> (data: &Vec<u8>)
        ensures
            data@ == self@.data,
    {
        &self.data
    }

    /// Whether the font has a glyph for `c`.
    pub fn covers(&self, c: u32) -> (found: bool)
        requires
            self.wf(),
        ensures
            found == self@.coverage.contains(c),
    {
        self.coverage.contains(c)
    }
}

/// One line of an atlas plan: the glyphs that the atlas takes from one font source.
#[derive(Debug, PartialEq, Eq)]
pub struct AtlasEntry {
    source: usize,
    pixel_height: u32,
    merge: bool,
    glyphs: CodepointSet,
}

impl View for AtlasEntry {
    type V = AtlasEntryModel;

    closed spec fn view(&self) -> AtlasEntryModel {
        AtlasEntryModel {
            source: self.source as int,
            pixel_height: self.pixel_height,
            merge: self.merge,
            glyphs: self.glyphs@,
        }
    }
}

impl AtlasEntry {
    /// The glyph ranges are canonical and hold only codepoints that a glyph can stand for.
    pub closed spec fn wf(&self) -> bool {
        &&& self.glyphs.wf()
        &&& forall|c: u32| self.glyphs@.contains(c) ==> drawable(c)
    }

    /// The font source that the glyphs are taken from, by its place in registration order.
    pub fn source(&self) -> (source: usize)
        ensures
            source == self@.source,
    {
        self.source
    }

    /// The height in pixels that the glyphs are rasterized at.
    pub fn pixel_height(&self) -> (height: u32)
        ensures
            height == self@.pixel_height,
    {
        self.pixel_height
    }

    /// Whether the glyphs are merged into the font that the first entry started.
    pub fn merge(&self) -> (merge: bool)
        ensures
            merge == self@.merge,
    {
        self.merge
    }

    /// The ranges that the glyphs are listed as.
    pub closed spec fn spec_glyph_ranges(&self) -> Seq<CodepointRange> {
        self.glyphs.spec_ranges()
    }

    /// The codepoints whose glyphs are taken from this source, as ascending ranges
    /// with a gap between any two of them.
    pub fn glyph_ranges(&self) -> (ranges: &Vec<CodepointRange>)
        requires
            self.wf(),
        ensures
            ranges@ == self.spec_glyph_ranges(),
            canonical(ranges@),
            forall|c: u32| ranges_cover(ranges@, c) <==> self@.glyphs.contains(c),
    {
        self.glyphs.ranges()
    }

    /// The glyphs as a table that the toolkit accepts: the ranges in ascending order,
    /// each as its first and its last codepoint, and a zero at the end. `None` for an
    /// entry without glyphs, which has no such table.
    pub fn glyph_table(&self) -> (table: Option<Vec<u32>>)
        requires
            self.wf(),
        ensures
            match table {
                Some(table) => {
                    &&& self.spec_glyph_ranges().len() > 0
                    &&& table@ == glyph_table_of(self.spec_glyph_ranges())
                    &&& valid_glyph_table(table@)
                    &&& forall|c: u32| table_covers(table@, c) <==> self@.glyphs.contains(c)
                },
                None => self@.glyphs == Set::<u32>::empty(),
            },
    {
        let ranges = self.glyphs.ranges();
        if ranges.len() == 0 {
            assert(self@.glyphs =~= Set::<u32>::empty());
            None
        } else {
            proof {
                assert forall|i: int| 0 <= i < ranges@.len() implies 1 <= (#[trigger] ranges@[i]).first
                    && ranges@[i].last <= MAX_CODEPOINT by {
                    assert(ranges@[i].first <= ranges@[i].last);
                    assert(ranges@[i].spec_contains(ranges@[i].first));
                    assert(ranges@[i].spec_contains(ranges@[i].last));
                    assert(ranges_cover(ranges@, ranges@[i].first));
                    assert(ranges_cover(ranges@, ranges@[i].last));
                    assert(self.glyphs@.contains(ranges@[i].first));
                    assert(self.glyphs@.contains(ranges@[i].last));
                    assert(drawable(ranges@[i].first));
                    assert(drawable(ranges@[i].last));
                }
                lemma_glyph_table_is_valid(ranges@);
            }
            Some(encode_glyph_table(ranges))
        }
    }

    /// Whether the entry lists `c`.
    pub fn lists(&self, c: u32) -> (found: bool)
        requires
            self.wf(),
        ensures
            found == self@.glyphs.contains(c),
    {
        self.glyphs.contains(c)
    }
}

/// An atlas plan as a sequence of plain values.
pub open spec fn atlas_model(entries: Seq<AtlasEntry>) -> Seq<AtlasEntryModel> {
    Seq::new(entries.len(), |i: int| entries[i]@)
}

/// Every entry of the plan keeps its glyph ranges canonical.
pub open spec fn atlas_wf(entries: Seq<AtlasEntry>) -> bool {
    forall|i: int| 0 <= i < entries.len() ==> (#[trigger] entries[i]).wf()
}

/// The source that the plan takes the glyph of `c` from; `None` for the fallback glyph.
pub fn resolve_glyph(entries: &Vec<AtlasEntry>, c: u32) -> (source: Option<usize>)
    requires
        atlas_wf(entries@),
    ensures
        match source {
            Some(i) => atlas_resolve(atlas_model(entries@), c) == Some(i as int),
            None => atlas_resolve(atlas_model(entries@), c) is None,
        },
{
    let ghost glyphs = atlas_model(entries@).map_values(|e: AtlasEntryModel| e.glyphs);
    let mut i: usize = 0;
    while i < entries.len()
        invariant
            i <= entries.len(),
            atlas_wf(entries@),
            glyphs == atlas_model(entries@).map_values(|e: AtlasEntryModel| e.glyphs),
            forall|k: int| 0 <= k < i ==> !(#[trigger] glyphs[k]).contains(c),
        decreases entries.len() - i,
    {
        assert(entries@[i as int].wf());
        assert(glyphs[i as int] == entries@[i as int]@.glyphs);
        if entries[i].lists(c) {
            proof {
                lemma_first_holding_some(glyphs, c, 0, i as int);
            }
            return Some(entries[i].source());
        }
        i += 1;
    }
    proof {
        lemma_first_holding_none(glyphs, c, 0);
    }
    None
}

/// Collects font sources and the codepoints to cover, and plans the atlas on demand.
#[derive(Debug)]
pub struct FontAtlasBuilder {
    sources: Vec<FontSource>,
    codepoints: CodepointSet,
    dirty: bool,
}

impl View for FontAtlasBuilder {
    type V = FontBuilderModel;

    closed spec fn view(&self) -> FontBuilderModel {
        FontBuilderModel {
            sources: Seq::new(self.sources@.len(), |i: int| self.sources@[i]@),
            codepoints: self.codepoints@,
            dirty: self.dirty,
        }
    }
}

impl FontAtlasBuilder {
    /// The sets are stored as their canonical lists, and only codepoints that a glyph
    /// can stand for are asked for.
    pub closed spec fn wf(&self) -> bool {
        &&& self.codepoints.wf()
        &&& forall|i: int| 0 <= i < self.sources@.len() ==> (#[trigger] self.sources@[i]).wf()
        &&& forall|c: u32| self.codepoints@.contains(c) ==> drawable(c)
    }

    /// A well-formed builder asks only for codepoints that a glyph can stand for.
    pub proof fn lemma_view_wf(&self)
        requires
            self.wf(),
        ensures
            self@.wf(),
    {
    }

    /// A builder with nothing registered and nothing to build.
    pub fn new() -> (builder: FontAtlasBuilder)
        ensures
            builder.wf(),
            builder@ == FontBuilderModel::empty(),
    {
        let builder = FontAtlasBuilder {
            sources: Vec::new(),
            codepoints: CodepointSet::new(),
            dirty: false,
        };
        assert(builder@.sources =~= Seq::<FontSourceModel>::empty());
        builder
    }

    /// Adds a font source behind those registered before: it lends its glyphs only for
    /// codepoints that none of them covers. The atlas has to be built again.
    pub fn register_font(&mut self, source: FontSource)
        requires
            old(self).wf(),
            source.wf(),
        ensures
            final(self).wf(),
            final(self)@ == old(self)@.register_font(source@),
            final(self)@.dirty,
    {
        self.sources.push(source);
        self.dirty = true;
        assert(self@.sources =~= old(self)@.sources.push(source@));
    }

    /// Asks for the codepoints from `first` to `last`, both included, to be covered;
    /// zero and numbers beyond the last Unicode codepoint are left out, since no glyph
    /// can stand for them. The atlas has to be built again, even where nothing new was
    /// asked for.
    pub fn register_codepoints(&mut self, first: u32, last: u32)
        requires
            old(self).wf(),
        ensures
            final(self).wf(),
            final(self)@.wf(),
            final(self)@ == old(self)@.register_codepoints(first, last),
            final(self)@.dirty,
    {
        let lowest: u32 = if first < 1 {
            1
        } else {
            first
        };
        let highest: u32 = if last > MAX_CODEPOINT {
            MAX_CODEPOINT
        } else {
            last
        };
        self.codepoints.insert_range(lowest, highest);
        self.dirty = true;
        assert(self@.sources =~= old(self)@.sources);
        assert(self@.codepoints =~= old(self)@.codepoints.union(
            Set::new(|c: u32| first <= c <= last && drawable(c)),
        ));
    }

    /// Asks for the codepoints of `text` that were not asked for before. Returns
    /// whether there was one; only then the atlas has to be built again.
    pub fn register_text(&mut self, text: &str) -> (added: bool)
        requires
            old(self).wf(),
        ensures
            final(self).wf(),
            final(self)@.wf(),
            final(self)@ == old(self)@.register_text(text@),
            added == !text_codepoints(text@).subset_of(old(self)@.codepoints),
    {
        let ghost before = self@;
        let mut added: bool = false;
        proof {
            assert(text_codepoints(text@.subrange(0, 0)) =~= Set::<u32>::empty());
            assert(self@.codepoints =~= before.codepoints.union(text_codepoints(text@.subrange(0, 0))));
            assert(self@.sources =~= before.sources);
        }
        for c in it: text.chars()
            invariant
                self.wf(),
                it.seq() == text@,
                self@.sources == before.sources,
                self@.codepoints == before.codepoints.union(
                    text_codepoints(text@.subrange(0, it.index() as int)),
                ),
                added == !text_codepoints(text@.subrange(0, it.index() as int)).subset_of(
                    before.codepoints,
                ),
                self@.dirty == (before.dirty || added),
        {
            let ghost seen = text@.subrange(0, it.index() as int);
            let ghost next = text@.subrange(0, it.index() + 1);
            let ghost held = self@.codepoints;
            let codepoint: u32 = c as u32;
            let wanted: bool = 1 <= codepoint && codepoint <= MAX_CODEPOINT;
            let missing: bool = wanted && !self.codepoints.contains(codepoint);
            if missing {
                self.codepoints.insert_range(codepoint, codepoint);
                self.dirty = true;
                added = true;
            }
            proof {
                assert(next[it.index() as int] == c);
                assert forall|x: u32| text_codepoints(next).contains(x) <==> (text_codepoints(seen).contains(x)
                    || (wanted && x == codepoint)) by {
                    if text_codepoints(next).contains(x) {
                        let i = choose|i: int| 0 <= i < next.len() && #[trigger] next[i] as u32 == x;
                        if i < seen.len() {
                            assert(seen[i] as u32 == x);
                        }
                    }
                    if text_codepoints(seen).contains(x) {
                        let i = choose|i: int| 0 <= i < seen.len() && #[trigger] seen[i] as u32 == x;
                        assert(next[i] as u32 == x);
                    }
                    if wanted && x == codepoint {
                        assert(next[it.index() as int] as u32 == x);
                    }
                }
                assert(self@.codepoints =~= before.codepoints.union(text_codepoints(next)));
                assert(self@.sources =~= before.sources);
                if missing {
                    assert(text_codepoints(next).contains(codepoint));
                    assert(!before.codepoints.contains(codepoint));
                } else if text_codepoints(seen).subset_of(before.codepoints) {
                    assert forall|x: u32| text_codepoints(next).contains(x) implies before.codepoints.contains(
                        x,
                    ) by {
                        if !text_codepoints(seen).contains(x) {
                            assert(held.contains(x));
                        }
                    }
                } else {
                    let x = choose|x: u32|
                        text_codepoints(seen).contains(x) && !before.codepoints.contains(x);
                    assert(text_codepoints(next).contains(x));
                }
            }
        }
        assert(text@.subrange(0, text@.len() as int) == text@);
        added
    }

    /// Whether anything was registered since the last build.
    pub fn flag_updated(&self) -> (dirty: bool)
        ensures
            dirty == self@.dirty,
    {
        self.dirty
    }

    /// Reads the dirty flag and clears it.
    pub fn fetch_reset_flag_updated(&mut self) -> (dirty: bool)
        requires
            old(self).wf(),
        ensures
            final(self).wf(),
            dirty == old(self)@.dirty,
            final(self)@ == old(self)@.clean(),
            !final(self)@.dirty,
    {
        let dirty = self.dirty;
        self.dirty = false;
        assert(self@.sources =~= old(self)@.sources);
        dirty
    }

    /// How many font sources are registered.
    pub fn source_count(&self) -> (count: usize)
        ensures
            count == self@.sources.len(),
    {
        self.sources.len()
    }

    /// The bytes of the `i`-th font source, `None` where there is no such source.
    pub fn source_data(&self, i: usize) -> (data: Option<&Vec<u8>>)
        ensures
            match data {
                Some(bytes) => i < self@.sources.len() && bytes@ == self@.sources[i as int].data,
                None => i >= self@.sources.len(),
            },
    {
        if i < self.sources.len() {
            Some(self.sources[i].data())
        } else {
            None
        }
    }

    /// Whether `c` was asked to be covered.
    pub fn is_registered(&self, c: u32) -> (found: bool)
        requires
            self.wf(),
        ensures
            found == self@.codepoints.contains(c),
    {
        self.codepoints.contains(c)
    }

    /// The first source, in registration order, that has a glyph for `c`.
    pub fn first_covering(&self, c: u32) -> (source: Option<usize>)
        requires
            self.wf(),
        ensures
            match source {
                Some(i) => self@.first_covering(c) == Some(i as int),
                None => self@.first_covering(c) is None,
            },
    {
        let ghost coverage = self@.sources.map_values(|s: FontSourceModel| s.coverage);
        let mut i: usize = 0;
        while i < self.sources.len()
            invariant
                i <= self.sources.len(),
                self.wf(),
                coverage == self@.sources.map_values(|s: FontSourceModel| s.coverage),
                forall|k: int| 0 <= k < i ==> !(#[trigger] coverage[k]).contains(c),
            decreases self.sources.len() - i,
        {
            assert(self.sources@[i as int].wf());
            assert(coverage[i as int] == self.sources@[i as int]@.coverage);
            if self.sources[i].covers(c) {
                proof {
                    lemma_first_holding_some(coverage, c, 0, i as int);
                }
                return Some(i);
            }
            i += 1;
        }
        proof {
            lemma_first_holding_none(coverage, c, 0);
        }
        None
    }

    /// The glyph that `c` is drawn with once the atlas is built: the first source that
    /// covers it if `c` was registered, the fallback glyph (`None`) otherwise.
    pub fn resolve(&self, c: u32) -> (source: Option<usize>)
        requires
            self.wf(),
        ensures
            match source {
                Some(i) => self@.resolve(c) == Some(i as int),
                None => self@.resolve(c) is None,
            },
    {
        if self.codepoints.contains(c) {
            self.first_covering(c)
        } else {
            None
        }
    }

    /// The registered codepoints that source `i` is the first to cover.
    fn glyphs_for(&self, i: usize) -> (glyphs: CodepointSet)
        requires
            self.wf(),
        ensures
            glyphs.wf(),
            glyphs@ == self@.glyphs_of(i as int),
    {
        let ghost model = self@;
        let wanted = self.codepoints.ranges();
        let mut picked: Vec<CodepointRange> = Vec::new();
        let mut k: usize = 0;
        while k < wanted.len()
            invariant
                k <= wanted.len(),
                self.wf(),
                model == self@,
                wanted@ == self.codepoints.spec_ranges(),
                canonical(wanted@),
                canonical(picked@),
                forall|a: int, j: int|
                    0 <= a < picked@.len() && k <= j < wanted@.len() ==> (#[trigger] picked@[a]).last < (
                    #[trigger] wanted@[j]).first,
                forall|c: u32|
                    ranges_cover(picked@, c) <==> (ranges_cover(wanted@.subrange(0, k as int), c)
                        && model.first_covering(c) == Some(i as int)),
            decreases wanted.len() - k,
        {
            let range = wanted[k];
            let ghost done = wanted@.subrange(0, k as int);
            let mut x: u64 = range.first as u64;
            assert(wanted@[k as int].first <= wanted@[k as int].last);
            while x <= range.last as u64
                invariant
                    k < wanted.len(),
                    range == wanted@[k as int],
                    range.first <= x <= range.last + 1,
                    self.wf(),
                    model == self@,
                    canonical(wanted@),
                    canonical(picked@),
                    done == wanted@.subrange(0, k as int),
                    forall|a: int| 0 <= a < picked@.len() ==> (#[trigger] picked@[a]).last < x,
                    forall|c: u32|
                        ranges_cover(picked@, c) <==> ((ranges_cover(done, c) || range.first <= c < x)
                            && model.first_covering(c) == Some(i as int)),
                decreases range.last + 1 - x,
            {
                let c: u32 = x as u32;
                let owner = self.first_covering(c);
                let mine: bool = match owner {
                    Some(j) => j == i,
                    None => false,
                };
                if mine {
                    append_codepoint(&mut picked, c);
                }
                x += 1;
            }
            proof {
                let next = wanted@.subrange(0, k + 1);
                assert forall|c: u32| ranges_cover(next, c) <==> (ranges_cover(done, c) || range.spec_contains(
                    c,
                )) by {
                    if ranges_cover(next, c) {
                        let a = choose|a: int| 0 <= a < next.len() && #[trigger] next[a].spec_contains(c);
                        if a < k {
                            assert(done[a].spec_contains(c));
                        }
                    }
                    if ranges_cover(done, c) {
                        let a = choose|a: int| 0 <= a < done.len() && #[trigger] done[a].spec_contains(c);
                        assert(next[a].spec_contains(c));
                    }
                    if range.spec_contains(c) {
                        assert(next[k as int].spec_contains(c));
                    }
                }
                assert forall|a: int, j: int|
                    0 <= a < picked@.len() && k + 1 <= j < wanted@.len() implies (#[trigger] picked@[a]).last < (
                #[trigger] wanted@[j]).first by {
                    assert(wanted@[k as int].last + 1 < wanted@[j].first);
                }
            }
            k += 1;
        }
        assert(wanted@.subrange(0, k as int) == wanted@);
        let glyphs = CodepointSet::from_canonical(picked);
        assert(glyphs@ =~= model.glyphs_of(i as int));
        glyphs
    }

    /// Plans the atlas at `pixel_height`: one entry for each source, in registration
    /// order, each with the registered codepoints that this source is the first to
    /// cover. Registered codepoints that no source covers are in no entry. The dirty
    /// flag is cleared.
    pub fn build_font_source(&mut self, pixel_height: u32) -> (entries: Vec<AtlasEntry>)
        requires
            old(self).wf(),
        ensures
            final(self).wf(),
            final(self)@ == old(self)@.clean(),
            !final(self)@.dirty,
            atlas_wf(entries@),
            atlas_model(entries@) == old(self)@.build(pixel_height),
    {
        let ghost model = self@;
        let mut entries: Vec<AtlasEntry> = Vec::new();
        let mut i: usize = 0;
        while i < self.sources.len()
            invariant
                i <= self.sources.len(),
                self.wf(),
                model == self@,
                entries@.len() == i,
                atlas_wf(entries@),
                forall|k: int|
                    0 <= k < i ==> (#[trigger] entries@[k])@ == (AtlasEntryModel {
                        source: k,
                        pixel_height,
                        merge: k > 0,
                        glyphs: model.glyphs_of(k),
                    }),
            decreases self.sources.len() - i,
        {
            let glyphs = self.glyphs_for(i);
            entries.push(AtlasEntry { source: i, pixel_height, merge: i > 0, glyphs });
            i += 1;
        }
        self.dirty = false;
        proof {
            assert(self@.sources =~= model.sources);
            assert(atlas_model(entries@) =~= model.build(pixel_height));
        }
        entries
    }
}

} // verus!
