use std::cell::RefCell;

use doom_colormap_generator::dcolors::{build_colormap, build_palette};
use doom_colormap_generator::{
    run, BlendMode, ColorOp, GenerateError, UserConfig, COLORMAP_LEN, PLAYPAL_LEN,
};

fn ramp_palette() -> Vec<u8> {
    let mut bytes = Vec::with_capacity(768);
    for i in 0..256usize {
        bytes.push(i as u8);
        bytes.push((255 - i) as u8);
        bytes.push(((i * 7) % 256) as u8);
    }
    bytes
}

fn config() -> UserConfig {
    UserConfig {
        distance_fade: (0, 0, 0),
        distance_fade_blend_mode: BlendMode::Normal,
        invulnerability_range_low: (0, 0, 0),
        invulnerability_range_high: (255, 255, 255),
        hurt: (255, 0, 0),
        hurt_blend_mode: BlendMode::Normal,
        radiation_suit: (0, 256, 0),
        radiation_suit_blend_mode: BlendMode::Normal,
        item_pickup: (215, 186, 69),
        item_pickup_blend_mode: BlendMode::Normal,
    }
}

fn to_gray(op: ColorOp) -> (i32, i32, i32) {
    match op {
        ColorOp::BrightnessMix { base, .. } => {
            let gray = 255 - base.1 as i32;
            (gray, gray, gray)
        }
        ColorOp::Mix { to, .. } => to,
        ColorOp::Multiply { top, .. } => top,
        ColorOp::Screen { bottom, .. } => bottom,
        ColorOp::CombineHsv { top, bottom, .. } => (top.0, bottom.1, top.2),
    }
}

#[test]
fn short_palette_is_refused() {
    let calls = RefCell::new(0usize);
    let math = |op: ColorOp| {
        *calls.borrow_mut() += 1;
        to_gray(op)
    };
    for len in [0usize, 1, 767] {
        let pal = vec![5u8; len];
        let result = run(&pal, &config(), &math);
        assert_eq!(result.err(), Some(GenerateError::InvalidPaletteSize));
    }
    assert_eq!(*calls.borrow(), 0);
}

#[test]
fn refusal_message() {
    assert_eq!(
        GenerateError::InvalidPaletteSize.message(),
        "Provided playpal must be >= 768 bytes in size."
    );
}

#[test]
fn one_page_is_enough() {
    let pal = ramp_palette();
    let lumps = run(&pal, &config(), &to_gray).unwrap();
    assert_eq!(lumps.playpal.len(), PLAYPAL_LEN);
    assert_eq!(lumps.colormap.len(), COLORMAP_LEN);
    assert_eq!(PLAYPAL_LEN, 14 * 256 * 3);
    assert_eq!(COLORMAP_LEN, 34 * 256);
}

#[test]
fn run_builds_the_palette_and_then_the_map_from_it() {
    let mut pal = ramp_palette();
    pal.extend_from_slice(&[1, 2, 3]);
    let cfg = UserConfig {
        distance_fade: (30, 20, 10),
        distance_fade_blend_mode: BlendMode::Hue,
        invulnerability_range_low: (1, 1, 1),
        invulnerability_range_high: (2, 2, 2),
        hurt: (200, 10, 10),
        hurt_blend_mode: BlendMode::Multiply,
        radiation_suit: (0, 200, 0),
        radiation_suit_blend_mode: BlendMode::Screen,
        item_pickup: (100, 100, 0),
        item_pickup_blend_mode: BlendMode::Normal,
    };
    let lumps = run(&pal, &cfg, &to_gray).unwrap();

    let mut playpal = vec![0u8; PLAYPAL_LEN];
    build_palette(
        &pal,
        &mut playpal,
        cfg.hurt,
        cfg.item_pickup,
        cfg.radiation_suit,
        cfg.hurt_blend_mode,
        cfg.item_pickup_blend_mode,
        cfg.radiation_suit_blend_mode,
        &to_gray,
    );
    let mut colormap = vec![0u8; COLORMAP_LEN];
    build_colormap(
        &playpal,
        &mut colormap,
        cfg.distance_fade,
        cfg.invulnerability_range_low,
        cfg.invulnerability_range_high,
        cfg.distance_fade_blend_mode,
        &to_gray,
    );
    assert_eq!(lumps.playpal, playpal);
    assert_eq!(lumps.colormap, colormap);

    // Each effect goes by its own colour and mode.
    assert_eq!(&lumps.playpal[..768], &pal[..768]);
    assert_eq!(&lumps.playpal[768..771], &[200, 10, 10]);
    assert_eq!(&lumps.playpal[9 * 768..9 * 768 + 3], &[12, 236, 0]);
    assert_eq!(&lumps.playpal[13 * 768 + 3..13 * 768 + 6], &[1, 254, 7]);
}
