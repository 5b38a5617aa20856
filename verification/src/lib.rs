//! Colour resources of a 256-colour raster engine: the fourteen-page palette
//! and the thirty-four-page remapping table derived from one base palette.

use vstd::prelude::*;
use crate::dcolors::{
    build_colormap, build_palette, is_colormap, is_playpal, lemma_colormap_reads_first_page,
};

pub mod arith;
pub mod blend;
pub mod dcolors;
pub mod draw;
pub mod quantize;

verus! {

/// How a target colour is combined with a palette entry before the entry is
/// moved toward the result.
#[derive(Clone, Copy, Debug, PartialEq, Eq, Structural)]
pub enum BlendMode {
    /// The target colour itself, approached by the integer rules.
    Normal,
    /// The product of target and entry.
    Multiply,
    /// The complement of the product of the complements.
    Screen,
    /// Hue of the target, saturation and value of the entry.
    Hue,
    /// Saturation of the target, hue and value of the entry.
    Saturation,
    /// Hue and saturation of the target, value of the entry.
    Color,
    /// Value of the target, hue and saturation of the entry.
    Luminosity,
}

/// A colour computation that is done in floating point and is therefore
/// left to the caller of the builders, who hands them a function from
/// `ColorOp` to the resulting colour. Channels are on the scale 0 to 255; a
/// computation normalises them to the unit interval, works there, scales
/// back and truncates each channel to an integer.
#[derive(Clone, Copy, Debug, PartialEq, Eq)]
pub enum ColorOp {
    /// `from` moved toward `to` by the fraction `num / den`, which is held
    /// to the range 0 to 1: `from + (to - from) * num / den`.
    Mix { from: (i32, i32, i32), to: (i32, i32, i32), num: i32, den: i32 },
    /// Channel by channel, the product of `top` and `bottom` on the unit
    /// interval, truncated there to a whole number and scaled by 255.
    Multiply { top: (i32, i32, i32), bottom: (i32, i32, i32) },
    /// Channel by channel, one minus the product of the complements of
    /// `top` and `bottom` on the unit interval, truncated there to a whole
    /// number and scaled by 255.
    Screen { top: (i32, i32, i32), bottom: (i32, i32, i32) },
    /// The colour whose hue, saturation and value are each taken from `top`
    /// where the flag is set and from `bottom` where it is not.
    CombineHsv {
        top: (i32, i32, i32),
        bottom: (i32, i32, i32),
        hue_from_top: bool,
        saturation_from_top: bool,
        value_from_top: bool,
    },
    /// `low` moved toward `high` by one minus the brightness of `base`,
    /// where the brightness is 0.299 of red, 0.587 of green and 0.144 of
    /// blue, each as a fraction of 256.
    BrightnessMix { low: (i32, i32, i32), high: (i32, i32, i32), base: (u8, u8, u8) },
}

/// Bytes of the palette buffer: fourteen pages of 256 three-byte colours.
pub const PLAYPAL_LEN: usize = 10752;

/// Bytes of the remapping table: thirty-four pages of 256 indices.
pub const COLORMAP_LEN: usize = 8704;

/// The colours and blend modes that a generation run is configured with.
#[derive(Clone, Copy, Debug)]
pub struct UserConfig {
    pub distance_fade: (i32, i32, i32),
    pub distance_fade_blend_mode: BlendMode,
    pub invulnerability_range_low: (i32, i32, i32),
    pub invulnerability_range_high: (i32, i32, i32),
    pub hurt: (i32, i32, i32),
    pub hurt_blend_mode: BlendMode,
    pub radiation_suit: (i32, i32, i32),
    pub radiation_suit_blend_mode: BlendMode,
    pub item_pickup: (i32, i32, i32),
    pub item_pickup_blend_mode: BlendMode,
}

/// Why a run produced nothing.
#[derive(Clone, Copy, Debug, PartialEq, Eq, Structural)]
pub enum GenerateError {
    /// The base palette is shorter than one page of 768 bytes.
    InvalidPaletteSize,
}

impl GenerateError {
    /// The message shown to the user.
    pub fn message(&self) -> (text: String)
        ensures
            text@ == "Provided playpal must be >= 768 bytes in size."@,
    {
        "Provided playpal must be >= 768 bytes in size.".to_owned()
    }
}

/// The two buffers that a run produces.
#[derive(Debug)]
pub struct Lumps {
    /// The fourteen palette pages.
    pub playpal: Vec<u8>,
    /// The thirty-four pages of the remapping table.
    pub colormap: Vec<u8>,
}

/// Generates both buffers from a base palette: the palette pages from its
/// first page, then the remapping table from the palette just made, whose
/// first page is the base page. A base palette shorter than one page is
/// refused before anything is computed.
pub fn run<F: Fn(ColorOp) -> (i32, i32, i32)>(playpal: &[u8], config: &UserConfig, math: &F) -> (r:
    Result<Lumps, GenerateError>)
    requires
        forall|op: ColorOp| call_requires(math, (op,)),
    ensures
        r is Err <==> playpal@.len() < 768,
        r is Err ==> r->Err_0 == GenerateError::InvalidPaletteSize,
        r is Ok ==> {
            let lumps = r->Ok_0;
            &&& lumps.playpal@.len() == PLAYPAL_LEN
            &&& lumps.colormap@.len() == COLORMAP_LEN
            &&& is_playpal(
                math,
                playpal@,
                config.hurt,
                config.item_pickup,
                config.radiation_suit,
                config.hurt_blend_mode,
                config.item_pickup_blend_mode,
                config.radiation_suit_blend_mode,
                lumps.playpal@,
            )
            &&& is_colormap(
                math,
                playpal@,
                config.distance_fade,
                config.invulnerability_range_low,
                config.invulnerability_range_high,
                config.distance_fade_blend_mode,
                lumps.colormap@,
            )
        },
{
    if playpal.len() < 768 {
        return Err(GenerateError::InvalidPaletteSize);
    }
    let mut new_playpal_bytes: Vec<u8> = vec![0u8; PLAYPAL_LEN];
    let mut new_colormap_bytes: Vec<u8> = vec![0u8; COLORMAP_LEN];
    build_palette(
        playpal,
        new_playpal_bytes.as_mut_slice(),
        config.hurt,
        config.item_pickup,
        config.radiation_suit,
        config.hurt_blend_mode,
        config.item_pickup_blend_mode,
        config.radiation_suit_blend_mode,
        math,
    );
    build_colormap(
        new_playpal_bytes.as_slice(),
        new_colormap_bytes.as_mut_slice(),
        config.distance_fade,
        config.invulnerability_range_low,
        config.invulnerability_range_high,
        config.distance_fade_blend_mode,
        math,
    );
    proof {
        assert(new_playpal_bytes@.subrange(0, 768) =~= playpal@.subrange(0, 768));
        lemma_colormap_reads_first_page(
            math,
            new_playpal_bytes@,
            playpal@,
            config.distance_fade,
            config.invulnerability_range_low,
            config.invulnerability_range_high,
            config.distance_fade_blend_mode,
            new_colormap_bytes@,
        );
    }
    Ok(Lumps { playpal: new_playpal_bytes, colormap: new_colormap_bytes })
}

} // verus!
