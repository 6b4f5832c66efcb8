//! Glyph tables in the form that the toolkit reads them in: pairs of codepoints, each
//! pair the first and the last codepoint of a range, and a zero behind the last pair.
//!
//! The toolkit's own constructor panics on a table that is not well-formed. Here a table
//! is checked before it is handed over, and the tables that an atlas plan gives out are
//! proved to pass the check.

use vstd::prelude::*;
use crate::codepoints::{canonical, CodepointRange, MAX_CODEPOINT};

verus! {

/// The toolkit's set of codepoints, opaque to the verifier.
#[verifier::external_type_specification]
#[verifier::external_body]
pub struct ExFontGlyphRanges(imgui::FontGlyphRanges);

/// The first codepoint of the `k`-th pair of a table.
pub open spec fn pair_first(table: Seq<u32>, k: int) -> u32 {
    table[2 * k]
}

/// The last codepoint of the `k`-th pair of a table.
pub open spec fn pair_last(table: Seq<u32>, k: int) -> u32 {
    table[2 * k + 1]
}

/// A table that the toolkit accepts: at least one pair, a zero at the end and nowhere
/// else, no number beyond the last Unicode codepoint, no pair that ends before it
/// starts, and every pair wholly behind the pair before it.
pub open spec fn valid_glyph_table(table: Seq<u32>) -> bool {
    &&& table.len() >= 3
    &&& table.len() % 2 == 1
    &&& table[table.len() - 1] == 0
    &&& forall|k: int|
        0 <= k < table.len() / 2 ==> 1 <= #[trigger] pair_first(table, k) <= pair_last(table, k)
            <= MAX_CODEPOINT
    &&& forall|k: int|
        0 < k < table.len() / 2 ==> pair_last(table, k - 1) < #[trigger] pair_first(table, k)
}

/// The table that lists `ranges` in their order.
pub open spec fn glyph_table_of(ranges: Seq<CodepointRange>) -> Seq<u32> {
    Seq::new(
        (2 * ranges.len() + 1) as nat,
        |i: int|
            if i == 2 * ranges.len() {
                0u32
            } else if i % 2 == 0 {
                ranges[i / 2].first
            } else {
                ranges[i / 2].last
            },
    )
}

/// Whether one of the pairs of `table` holds `c`.
pub open spec fn table_covers(table: Seq<u32>, c: u32) -> bool {
    exists|k: int| 0 <= k < table.len() / 2 && #[trigger] pair_first(table, k) <= c <= pair_last(table, k)
}

/// The table of a canonical list of ranges that hold neither zero nor a number beyond
/// the last Unicode codepoint is one that the toolkit accepts, unless the list is
/// empty; and it holds the codepoints that the ranges hold.
pub proof fn lemma_glyph_table_is_valid(ranges: Seq<CodepointRange>)
    requires
        canonical(ranges),
        ranges.len() > 0,
        forall|i: int|
            0 <= i < ranges.len() ==> 1 <= (#[trigger] ranges[i]).first && ranges[i].last
                <= MAX_CODEPOINT,
    ensures
        valid_glyph_table(glyph_table_of(ranges)),
        forall|c: u32|
            table_covers(glyph_table_of(ranges), c) <==> crate::codepoints::ranges_cover(ranges, c),
{
    let table = glyph_table_of(ranges);
    assert forall|k: int| 0 <= k < table.len() / 2 implies 1 <= #[trigger] pair_first(table, k)
        <= pair_last(table, k) <= MAX_CODEPOINT by {
        assert(pair_first(table, k) == ranges[k].first);
        assert(pair_last(table, k) == ranges[k].last);
    }
    assert forall|k: int| 0 < k < table.len() / 2 implies pair_last(table, k - 1) < #[trigger] pair_first(
        table,
        k,
    ) by {
        assert(pair_last(table, k - 1) == ranges[k - 1].last);
        assert(pair_first(table, k) == ranges[k].first);
        assert(ranges[k - 1].last + 1 < ranges[k].first);
    }
    assert forall|c: u32| table_covers(table, c) <==> crate::codepoints::ranges_cover(ranges, c) by {
        if table_covers(table, c) {
            let k = choose|k: int|
                0 <= k < table.len() / 2 && #[trigger] pair_first(table, k) <= c <= pair_last(table, k);
            assert(pair_first(table, k) == ranges[k].first);
            assert(pair_last(table, k) == ranges[k].last);
            assert(ranges[k].spec_contains(c));
        }
        if crate::codepoints::ranges_cover(ranges, c) {
            let k = choose|k: int| 0 <= k < ranges.len() && #[trigger] ranges[k].spec_contains(c);
            assert(pair_first(table, k) == ranges[k].first);
            assert(pair_last(table, k) == ranges[k].last);
        }
    }
}

/// Writes `ranges` out as a table.
pub fn encode_glyph_table(ranges: &Vec<CodepointRange>) -> (table: Vec<u32>)
    ensures
        table@ == glyph_table_of(ranges@),
{
    let mut table: Vec<u32> = Vec::new();
    let mut k: usize = 0;
    while k < ranges.len()
        invariant
            k <= ranges.len(),
            table@.len() == 2 * k,
            forall|i: int|
                0 <= i < 2 * k ==> #[trigger] table@[i] == if i % 2 == 0 {
                    ranges@[i / 2].first
                } else {
                    ranges@[i / 2].last
                },
        decreases ranges.len() - k,
    {
        table.push(ranges[k].first);
        table.push(ranges[k].last);
        k += 1;
    }
    table.push(0);
    assert(table@ =~= glyph_table_of(ranges@));
    table
}

/// Whether the toolkit accepts `table`.
pub fn is_valid_glyph_table(table: &[u32]) -> (valid: bool)
    ensures
        valid == valid_glyph_table(table@),
{
    let n: usize = table.len();
    if n < 3 || n % 2 != 1 {
        return false;
    }
    if table[n - 1] != 0 {
        return false;
    }
    let pairs: usize = n / 2;
    let mut k: usize = 0;
    while k < pairs
        invariant
            k <= pairs,
            pairs == n / 2,
            n == table@.len(),
            n >= 3,
            n % 2 == 1,
            forall|j: int|
                0 <= j < k ==> 1 <= #[trigger] pair_first(table@, j) <= pair_last(table@, j)
                    <= MAX_CODEPOINT,
            forall|j: int| 0 < j < k ==> pair_last(table@, j - 1) < #[trigger] pair_first(table@, j),
        decreases pairs - k,
    {
        let first: u32 = table[2 * k];
        let last: u32 = table[2 * k + 1];
        assert(first == pair_first(table@, k as int));
        assert(last == pair_last(table@, k as int));
        if first < 1 || first > last || last > MAX_CODEPOINT {
            return false;
        }
        if k > 0 {
            let before: u32 = table[2 * k - 1];
            assert(before == pair_last(table@, k - 1));
            if before >= first {
                return false;
            }
        }
        k += 1;
    }
    true
}

/// Hands `table` to `imgui::FontGlyphRanges::from_slice`. That function panics unless
/// the table has an odd length, ends in a zero, holds neither another zero nor a number
/// beyond the last Unicode codepoint, has no pair whose first number is larger than its
/// second, has at least one pair, and has no two pairs that overlap once they are
/// sorted by their first number; `valid_glyph_table` asks for all of that, with the
/// pairs in ascending order to begin with. Nothing is claimed of what comes back.
#[verifier::external_body]
fn glyph_ranges_from_slice(table: &'static [u32]) -> (ranges: imgui::FontGlyphRanges)
    requires
        valid_glyph_table(table@),
{
    imgui::FontGlyphRanges::from_slice(table)
}

/// The toolkit's set of codepoints for `table`, which has to stay where it is for as
/// long as a font is built from it; `None` for a table that the toolkit would not
/// accept.
pub fn imgui_glyph_ranges(table: &'static [u32]) -> (ranges: Option<imgui::FontGlyphRanges>)
    ensures
        ranges is Some <==> valid_glyph_table(table@),
{
    if is_valid_glyph_table(table) {
        Some(glyph_ranges_from_slice(table))
    } else {
        None
    }
}

} // verus!
