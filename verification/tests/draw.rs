use doom_colormap_generator::draw::{draw_colormap, draw_playpal};

#[test]
fn palette_preview_is_sixteen_wide_and_holds_the_colours() {
    let bytes: Vec<u8> = (0..14 * 768).map(|i| (i * 31 % 253) as u8).collect();
    let preview = draw_playpal(&bytes);
    assert_eq!(preview.width(), 16);
    assert_eq!(preview.height(), 224);
    let raw = preview.into_raw();
    assert_eq!(raw.len(), 16 * 224 * 3);
    assert_eq!(raw, bytes);
}

#[test]
fn palette_preview_leaves_out_an_incomplete_row() {
    let bytes: Vec<u8> = (0..2 * 48 + 47).map(|i| (i + 1) as u8).collect();
    let preview = draw_playpal(&bytes);
    assert_eq!(preview.width(), 16);
    assert_eq!(preview.height(), 2);
    assert_eq!(preview.into_raw(), bytes[..96].to_vec());
}

#[test]
fn palette_preview_of_nothing_is_empty() {
    let preview = draw_playpal(&[]);
    assert_eq!(preview.width(), 16);
    assert_eq!(preview.height(), 0);
    assert!(preview.into_raw().is_empty());
    assert!(draw_playpal(&[9; 47]).into_raw().is_empty());
}

#[test]
fn colormap_preview_looks_each_entry_up() {
    let palette: Vec<u8> = (0..2 * 768).map(|i| (i * 7 % 251) as u8).collect();
    let colormap: Vec<u8> = (0..40).map(|i| (i * 13 % 256) as u8).collect();
    for page in 0..2u32 {
        let preview = draw_colormap(&palette, &colormap, page);
        assert_eq!(preview.width(), 16);
        assert_eq!(preview.height(), 2);
        let raw = preview.into_raw();
        assert_eq!(raw.len(), 32 * 3);
        for p in 0..32usize {
            let offset = page as usize * 768 + colormap[p] as usize * 3;
            assert_eq!(&raw[3 * p..3 * p + 3], &palette[offset..offset + 3]);
        }
    }
}

#[test]
fn colormap_preview_of_a_whole_table() {
    let palette: Vec<u8> = (0..768).map(|i| (255 - i % 256) as u8).collect();
    let colormap: Vec<u8> = (0..34 * 256).map(|i| (i % 256) as u8).collect();
    let preview = draw_colormap(&palette, &colormap, 0);
    assert_eq!(preview.width(), 16);
    assert_eq!(preview.height(), 544);
    let raw = preview.into_raw();
    assert_eq!(raw.len(), 34 * 768);
    assert_eq!(&raw[..768], &palette[..]);
    assert_eq!(&raw[33 * 768..], &palette[..]);
}

#[test]
fn colormap_preview_needs_only_the_colours_that_are_named() {
    let palette = [10u8, 20, 30, 40, 50, 60];
    let colormap = [1u8; 16];
    let raw = draw_colormap(&palette, &colormap, 0).into_raw();
    assert_eq!(raw, [40u8, 50, 60].repeat(16));
}
