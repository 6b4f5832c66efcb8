use overlay::codepoints::CodepointRange;
use overlay::font::{FontAtlasBuilder, FontSource};
use overlay::glyph_table::{encode_glyph_table, imgui_glyph_ranges, is_valid_glyph_table};

fn range(first: u32, last: u32) -> CodepointRange {
    CodepointRange { first, last }
}

fn keep(table: Vec<u32>) -> &'static [u32] {
    table.leak()
}

#[test]
fn ranges_are_written_as_pairs_with_a_zero_at_the_end() {
    assert_eq!(encode_glyph_table(&vec![]), vec![0]);
    assert_eq!(encode_glyph_table(&vec![range(0x20, 0x7e)]), vec![0x20, 0x7e, 0]);
    assert_eq!(
        encode_glyph_table(&vec![range(0x20, 0x7e), range(0xa0, 0xff), range(0x4e2d, 0x4e2d)]),
        vec![0x20, 0x7e, 0xa0, 0xff, 0x4e2d, 0x4e2d, 0]
    );
}

#[test]
fn well_formed_tables_are_accepted() {
    assert!(is_valid_glyph_table(&[0x20, 0x7e, 0]));
    assert!(is_valid_glyph_table(&[1, 1, 0]));
    assert!(is_valid_glyph_table(&[1, 0x10ffff, 0]));
    assert!(is_valid_glyph_table(&[0x20, 0x7e, 0x7f, 0x7f, 0x4e00, 0x9fff, 0]));
}

#[test]
fn malformed_tables_are_rejected() {
    assert!(!is_valid_glyph_table(&[]));
    assert!(!is_valid_glyph_table(&[0]));
    assert!(!is_valid_glyph_table(&[0x20, 0]));
    assert!(!is_valid_glyph_table(&[0x20, 0x7e]));
    assert!(!is_valid_glyph_table(&[0x20, 0x7e, 1]));
    assert!(!is_valid_glyph_table(&[0x20, 0x7e, 0, 0]));
    assert!(!is_valid_glyph_table(&[0, 0x7e, 0]));
    assert!(!is_valid_glyph_table(&[0x7e, 0x20, 0]));
    assert!(!is_valid_glyph_table(&[0x20, 0x110000, 0]));
    assert!(!is_valid_glyph_table(&[0x20, 0x7e, 0x7e, 0x80, 0]));
    assert!(!is_valid_glyph_table(&[0x20, 0x7e, 0x30, 0x40, 0]));
    assert!(!is_valid_glyph_table(&[0xa0, 0xff, 0x20, 0x7e, 0]));
    assert!(!is_valid_glyph_table(&[0x20, 0x7e, 0, 0x90, 0]));
}

#[test]
fn toolkit_takes_a_well_formed_table() {
    let table = keep(vec![0x20, 0x7e, 0xa0, 0xff, 0]);
    let ranges = imgui_glyph_ranges(table);
    assert_eq!(ranges, Some(imgui::FontGlyphRanges::from_slice(table)));
    assert_ne!(ranges, Some(imgui::FontGlyphRanges::default()));
}

#[test]
fn toolkit_is_not_shown_a_malformed_table() {
    assert_eq!(imgui_glyph_ranges(keep(vec![0])), None);
    assert_eq!(imgui_glyph_ranges(keep(vec![])), None);
    assert_eq!(imgui_glyph_ranges(keep(vec![0x20, 0x7e])), None);
    assert_eq!(imgui_glyph_ranges(keep(vec![0x7e, 0x20, 0])), None);
    assert_eq!(imgui_glyph_ranges(keep(vec![0x20, 0x7e, 0x7e, 0x80, 0])), None);
    assert_eq!(imgui_glyph_ranges(keep(vec![0x20, 0x110000, 0])), None);
    assert_eq!(imgui_glyph_ranges(keep(vec![0xa0, 0xff, 0x20, 0x7e, 0])), None);
}

#[test]
fn atlas_entries_give_tables_that_the_toolkit_takes() {
    let mut builder = FontAtlasBuilder::new();
    builder.register_font(FontSource::new(vec![1], &vec![range(0x20, 0x7e), range(0xa0, 0xff)]));
    builder.register_font(FontSource::new(vec![2], &vec![range(0x4e00, 0x9fff)]));
    builder.register_font(FontSource::new(vec![3], &vec![range(0, u32::MAX)]));
    builder.register_codepoints(0, 254);
    builder.register_codepoints(0x10fffe, u32::MAX);
    let atlas = builder.build_font_source(18);
    assert_eq!(atlas[0].glyph_table(), Some(vec![0x20, 0x7e, 0xa0, 0xfe, 0]));
    assert_eq!(atlas[1].glyph_table(), None);
    assert_eq!(atlas[2].glyph_table(), Some(vec![1, 0x1f, 0x7f, 0x9f, 0x10fffe, 0x10ffff, 0]));
    for entry in &atlas {
        if let Some(table) = entry.glyph_table() {
            assert!(is_valid_glyph_table(&table));
            assert!(imgui_glyph_ranges(keep(table)).is_some());
        }
    }
}

#[test]
fn zero_and_numbers_beyond_unicode_are_never_registered() {
    let mut builder = FontAtlasBuilder::new();
    builder.register_codepoints(0, 0);
    assert!(builder.flag_updated());
    assert!(!builder.is_registered(0));
    builder.register_codepoints(0x110000, u32::MAX);
    assert!(!builder.is_registered(0x110000));
    assert!(!builder.is_registered(u32::MAX));
    builder.register_codepoints(0, u32::MAX);
    assert!(!builder.is_registered(0));
    assert!(builder.is_registered(1));
    assert!(builder.is_registered(0x10ffff));
    assert!(!builder.is_registered(0x110000));
}
