//! Assembly of the palette pages and of the remapping table.

use vstd::prelude::*;
use crate::blend::{
    channel_bytes, faded_color, is_faded_color, is_shifted_color,
    lemma_fade_channel_at_full_brightness, low_bytes, no_color_math, normal_shift, shifted_color,
};
use crate::quantize::{
    color_at, is_best_color, lemma_best_color_finds_own_entry, lemma_best_color_reads_first_page,
    lemma_same_first_page,
};
use crate::{BlendMode, ColorOp};

pub use crate::quantize::best_color;

verus! {

/// `after` has the length of `before` and the same bytes from `start` on.
pub open spec fn kept_from(before: Seq<u8>, after: Seq<u8>, start: int) -> bool {
    &&& after.len() == before.len()
    &&& forall|i: int| start <= i < before.len() ==> after[i] == before[i]
}

/// Entry `c` of page `page` of a buffer of 256-byte pages.
pub open spec fn map_entry(buf: Seq<u8>, page: int, c: int) -> u8 {
    buf[page * 256 + c]
}

/// Entry `c` of darkness page `level` is right: `idx` is the palette entry
/// nearest to colour `c` of `pal` faded toward `fade` at that level.
pub open spec fn is_light_entry<F: Fn(ColorOp) -> (i32, i32, i32)>(
    math: &F,
    mode: BlendMode,
    pal: Seq<u8>,
    fade: (i32, i32, i32),
    level: int,
    c: int,
    idx: u8,
) -> bool {
    exists|rgb_out: (u8, u8, u8)|
        #[trigger] is_faded_color(math, mode, color_at(pal, c), fade, level, rgb_out)
            && is_best_color(pal, rgb_out, idx as int)
}

/// Entry `c` of the invulnerability page is right: `idx` is the palette entry
/// nearest to the low bytes of what `math` answers for the mix of `low` and
/// `high` by the inverted brightness of colour `c` of `pal`.
pub open spec fn is_invulnerability_entry<F: Fn(ColorOp) -> (i32, i32, i32)>(
    math: &F,
    pal: Seq<u8>,
    low: (i32, i32, i32),
    high: (i32, i32, i32),
    c: int,
    idx: u8,
) -> bool {
    exists|mixed: (i32, i32, i32)|
        #[trigger] call_ensures(
            math,
            (ColorOp::BrightnessMix { low, high, base: color_at(pal, c) },),
            mixed,
        ) && is_best_color(pal, low_bytes(mixed), idx as int)
}

/// Writes one palette page: each of the 256 colours of `inpal` shifted
/// toward `rgb` by `shift / steps` under `mode`. Bytes after the page stay.
pub fn color_shift_palette<F: Fn(ColorOp) -> (i32, i32, i32)>(
    inpal: &[u8],
    outpal_at_palette_to_shift: &mut [u8],
    rgb: (i32, i32, i32),
    shift: i32,
    steps: i32,
    mode: &BlendMode,
    math: &F,
)
    requires
        inpal@.len() >= 768,
        old(outpal_at_palette_to_shift)@.len() >= 768,
        *mode == BlendMode::Normal ==> steps != 0,
        forall|op: ColorOp| call_requires(math, (op,)),
    ensures
        kept_from(old(outpal_at_palette_to_shift)@, final(outpal_at_palette_to_shift)@, 768),
        forall|c: int|
            0 <= c < 256 ==> is_shifted_color(
                math,
                *mode,
                color_at(inpal@, c),
                rgb,
                shift,
                steps,
                #[trigger] color_at(final(outpal_at_palette_to_shift)@, c),
            ),
{
    let mut i: usize = 0;
    while i < 256
        invariant
            i <= 256,
            inpal@.len() >= 768,
            *mode == BlendMode::Normal ==> steps != 0,
            forall|op: ColorOp| call_requires(math, (op,)),
            outpal_at_palette_to_shift@.len() == old(outpal_at_palette_to_shift)@.len(),
            outpal_at_palette_to_shift@.len() >= 768,
            forall|j: int|
                3 * i <= j < outpal_at_palette_to_shift@.len() ==> outpal_at_palette_to_shift@[j]
                    == old(outpal_at_palette_to_shift)@[j],
            forall|c: int|
                0 <= c < i ==> is_shifted_color(
                    math,
                    *mode,
                    color_at(inpal@, c),
                    rgb,
                    shift,
                    steps,
                    #[trigger] color_at(outpal_at_palette_to_shift@, c),
                ),
        decreases 256 - i,
    {
        let offset: usize = i * 3;
        let source: (u8, u8, u8) = (inpal[offset], inpal[offset + 1], inpal[offset + 2]);
        let out: (u8, u8, u8) = shifted_color(math, *mode, source, rgb, shift, steps);
        let ghost before = outpal_at_palette_to_shift@;
        outpal_at_palette_to_shift[offset] = out.0;
        outpal_at_palette_to_shift[offset + 1] = out.1;
        outpal_at_palette_to_shift[offset + 2] = out.2;
        proof {
            assert(source == color_at(inpal@, i as int));
            assert forall|c: int| 0 <= c < i + 1 implies is_shifted_color(
                math,
                *mode,
                color_at(inpal@, c),
                rgb,
                shift,
                steps,
                #[trigger] color_at(outpal_at_palette_to_shift@, c),
            ) by {
                if c < i {
                    assert(color_at(outpal_at_palette_to_shift@, c) == color_at(before, c));
                } else {
                    assert(color_at(outpal_at_palette_to_shift@, c) == out);
                }
            }
        }
        i += 1;
    }
}

/// Fills the 32 darkness pages: entry `c` of page `level` is the palette
/// entry nearest to colour `c` faded toward `fade_color` at that level.
/// Bytes after the 32 pages stay.
pub fn build_lights_colormap<F: Fn(ColorOp) -> (i32, i32, i32)>(
    playpal: &[u8],
    colormap: &mut [u8],
    fade_color: (i32, i32, i32),
    mode: BlendMode,
    math: &F,
)
    requires
        playpal@.len() >= 768,
        old(colormap)@.len() >= 8192,
        forall|op: ColorOp| call_requires(math, (op,)),
    ensures
        kept_from(old(colormap)@, final(colormap)@, 8192),
        forall|level: int, c: int|
            0 <= level < 32 && 0 <= c < 256 ==> is_light_entry(
                math,
                mode,
                playpal@,
                fade_color,
                level,
                c,
                #[trigger] map_entry(final(colormap)@, level, c),
            ),
{
    let mut darkness_level: i32 = 0;
    while darkness_level < 32
        invariant
            0 <= darkness_level <= 32,
            playpal@.len() >= 768,
            forall|op: ColorOp| call_requires(math, (op,)),
            colormap@.len() == old(colormap)@.len(),
            colormap@.len() >= 8192,
            forall|i: int|
                256 * darkness_level <= i < colormap@.len() ==> colormap@[i] == old(colormap)@[i],
            forall|level: int, c: int|
                0 <= level < darkness_level && 0 <= c < 256 ==> is_light_entry(
                    math,
                    mode,
                    playpal@,
                    fade_color,
                    level,
                    c,
                    #[trigger] map_entry(colormap@, level, c),
                ),
        decreases 32 - darkness_level,
    {
        let mut color: usize = 0;
        while color < 256
            invariant
                0 <= darkness_level < 32,
                color <= 256,
                playpal@.len() >= 768,
                forall|op: ColorOp| call_requires(math, (op,)),
                colormap@.len() == old(colormap)@.len(),
                colormap@.len() >= 8192,
                forall|i: int|
                    256 * darkness_level + color <= i < colormap@.len() ==> colormap@[i]
                        == old(colormap)@[i],
                forall|level: int, c: int|
                    0 <= level < darkness_level && 0 <= c < 256 ==> is_light_entry(
                        math,
                        mode,
                        playpal@,
                        fade_color,
                        level,
                        c,
                        #[trigger] map_entry(colormap@, level, c),
                    ),
                forall|c: int|
                    0 <= c < color ==> is_light_entry(
                        math,
                        mode,
                        playpal@,
                        fade_color,
                        darkness_level as int,
                        c,
                        #[trigger] map_entry(colormap@, darkness_level as int, c),
                    ),
            decreases 256 - color,
        {
            let source: (u8, u8, u8) = (
                playpal[color * 3],
                playpal[color * 3 + 1],
                playpal[color * 3 + 2],
            );
            let rgb_out: (u8, u8, u8) = faded_color(math, mode, source, fade_color, darkness_level);
            let nearest: u8 = best_color(playpal, rgb_out);
            let ghost before = colormap@;
            colormap[darkness_level as usize * 256 + color] = nearest;
            proof {
                assert(source == color_at(playpal@, color as int));
                assert(is_faded_color(
                    math,
                    mode,
                    color_at(playpal@, color as int),
                    fade_color,
                    darkness_level as int,
                    rgb_out,
                ));
                assert(map_entry(colormap@, darkness_level as int, color as int) == nearest);
                assert forall|level: int, c: int|
                    0 <= level < darkness_level && 0 <= c < 256 implies #[trigger] map_entry(
                    colormap@,
                    level,
                    c,
                ) == map_entry(before, level, c) by {}
                assert forall|c: int| 0 <= c < color implies #[trigger] map_entry(
                    colormap@,
                    darkness_level as int,
                    c,
                ) == map_entry(before, darkness_level as int, c) by {}
            }
            color += 1;
        }
        darkness_level += 1;
    }
}

/// Fills the invulnerability page: entry `c` is the palette entry nearest to
/// the mix of `low_color` and `high_color` by the inverted brightness of
/// colour `c`. Bytes after the page stay.
pub fn build_invulnerability_colormap<F: Fn(ColorOp) -> (i32, i32, i32)>(
    playpal: &[u8],
    colormap_at_invuln_start: &mut [u8],
    low_color: (i32, i32, i32),
    high_color: (i32, i32, i32),
    math: &F,
)
    requires
        playpal@.len() >= 768,
        old(colormap_at_invuln_start)@.len() >= 256,
        forall|op: ColorOp| call_requires(math, (op,)),
    ensures
        kept_from(old(colormap_at_invuln_start)@, final(colormap_at_invuln_start)@, 256),
        forall|c: int|
            0 <= c < 256 ==> is_invulnerability_entry(
                math,
                playpal@,
                low_color,
                high_color,
                c,
                #[trigger] final(colormap_at_invuln_start)@[c],
            ),
{
    let mut color: usize = 0;
    while color < 256
        invariant
            color <= 256,
            playpal@.len() >= 768,
            forall|op: ColorOp| call_requires(math, (op,)),
            colormap_at_invuln_start@.len() == old(colormap_at_invuln_start)@.len(),
            colormap_at_invuln_start@.len() >= 256,
            forall|i: int|
                color <= i < colormap_at_invuln_start@.len() ==> colormap_at_invuln_start@[i]
                    == old(colormap_at_invuln_start)@[i],
            forall|c: int|
                0 <= c < color ==> is_invulnerability_entry(
                    math,
                    playpal@,
                    low_color,
                    high_color,
                    c,
                    #[trigger] colormap_at_invuln_start@[c],
                ),
        decreases 256 - color,
    {
        let base: (u8, u8, u8) = (
            playpal[color * 3],
            playpal[color * 3 + 1],
            playpal[color * 3 + 2],
        );
        let mixed_color: (i32, i32, i32) = math(
            ColorOp::BrightnessMix { low: low_color, high: high_color, base },
        );
        let nearest: u8 = best_color(playpal, channel_bytes(mixed_color));
        colormap_at_invuln_start[color] = nearest;
        proof {
            assert(base == color_at(playpal@, color as int));
        }
        color += 1;
    }
}

/// Colour `c` of page `page` of a buffer of 768-byte palette pages.
pub open spec fn page_color(buf: Seq<u8>, page: int, c: int) -> (u8, u8, u8) {
    color_at(buf, page * 256 + c)
}

/// Pages `first` to `first + pages - 1` of `out` are a ramp: the page at
/// distance `k` from `first` holds every colour of `pal` shifted toward `rgb`
/// by `(k + 1) / steps` under `mode`.
pub open spec fn is_ramp<F: Fn(ColorOp) -> (i32, i32, i32)>(
    math: &F,
    mode: BlendMode,
    pal: Seq<u8>,
    rgb: (i32, i32, i32),
    first: int,
    pages: int,
    steps: i32,
    out: Seq<u8>,
) -> bool {
    forall|q: int, c: int|
        first <= q < first + pages && 0 <= c < 256 ==> is_shifted_color(
            math,
            mode,
            color_at(pal, c),
            rgb,
            (q - first + 1) as i32,
            steps,
            #[trigger] page_color(out, q, c),
        )
}

/// Writes `pages` ramp pages from the start of `out`: page `k` is `playpal`
/// shifted toward `rgb` by `(k + 1) / steps`. Bytes after them stay.
pub fn shift_ramp<F: Fn(ColorOp) -> (i32, i32, i32)>(
    playpal: &[u8],
    out: &mut [u8],
    rgb: (i32, i32, i32),
    mode: BlendMode,
    pages: usize,
    steps: i32,
    math: &F,
)
    requires
        playpal@.len() >= 768,
        pages <= i32::MAX,
        old(out)@.len() >= pages * 768,
        mode == BlendMode::Normal ==> steps != 0,
        forall|op: ColorOp| call_requires(math, (op,)),
    ensures
        kept_from(old(out)@, final(out)@, pages * 768),
        is_ramp(math, mode, playpal@, rgb, 0, pages as int, steps, final(out)@),
{
    assert(out@.len() == out.len());
    let mut page: usize = 0;
    while page < pages
        invariant
            page <= pages <= i32::MAX,
            pages * 768 <= usize::MAX,
            playpal@.len() >= 768,
            mode == BlendMode::Normal ==> steps != 0,
            forall|op: ColorOp| call_requires(math, (op,)),
            out@.len() == old(out)@.len(),
            out@.len() >= pages * 768,
            forall|i: int| page * 768 <= i < out@.len() ==> out@[i] == old(out)@[i],
            is_ramp(math, mode, playpal@, rgb, 0, page as int, steps, out@),
        decreases pages - page,
    {
        let ghost before = out@;
        let start: usize = page * 768;
        let (_, tail) = out.split_at_mut(start);
        color_shift_palette(playpal, tail, rgb, (page + 1) as i32, steps, &mode, math);
        proof {
            let after_tail = tail@;
            assert forall|q: int, c: int|
                0 <= q < page + 1 && 0 <= c < 256 implies is_shifted_color(
                math,
                mode,
                color_at(playpal@, c),
                rgb,
                (q + 1) as i32,
                steps,
                #[trigger] page_color(out@, q, c),
            ) by {
                if q < page {
                    assert(page_color(out@, q, c) == page_color(before, q, c));
                } else {
                    assert(page_color(out@, q, c) == color_at(after_tail, c));
                }
            }
        }
        page += 1;
    }
}

/// `out` holds the fourteen palette pages made from `pal`: page 0 the base
/// page itself, pages 1 to 8 the hurt ramp in ninths, pages 9 to 12 the
/// pickup ramp in eighths, page 13 the radiation tint at one eighth.
pub open spec fn is_playpal<F: Fn(ColorOp) -> (i32, i32, i32)>(
    math: &F,
    pal: Seq<u8>,
    hurt_color: (i32, i32, i32),
    pickup_color: (i32, i32, i32),
    radiation_color: (i32, i32, i32),
    hurt_mode: BlendMode,
    pickup_mode: BlendMode,
    radiation_mode: BlendMode,
    out: Seq<u8>,
) -> bool {
    &&& forall|i: int| 0 <= i < 768 ==> out[i] == pal[i]
    &&& is_ramp(math, hurt_mode, pal, hurt_color, 1, 8, 9, out)
    &&& is_ramp(math, pickup_mode, pal, pickup_color, 9, 4, 8, out)
    &&& is_ramp(math, radiation_mode, pal, radiation_color, 13, 1, 8, out)
}

/// Entry `n` is one that full brightness leaves in its place under the
/// normal mode: the fade colour exceeds it in no channel, it is the first
/// entry to hold its colour, and it is not a black entry elsewhere than at 0.
pub open spec fn keeps_its_place(pal: Seq<u8>, fade: (i32, i32, i32), n: int) -> bool {
    &&& 0 <= n < 256
    &&& fade.0 <= color_at(pal, n).0
    &&& fade.1 <= color_at(pal, n).1
    &&& fade.2 <= color_at(pal, n).2
    &&& forall|j: int| 0 <= j < n ==> color_at(pal, j) != color_at(pal, n)
    &&& (n == 0 || color_at(pal, n) != (0u8, 0u8, 0u8))
}

/// `out` holds the thirty-four pages of the remapping table made from
/// `pal`: pages 0 to 31 the darkness levels, page 32 the invulnerability
/// remap, page 33 all zero.
pub open spec fn is_colormap<F: Fn(ColorOp) -> (i32, i32, i32)>(
    math: &F,
    pal: Seq<u8>,
    fade_color: (i32, i32, i32),
    invuln_low_color: (i32, i32, i32),
    invuln_high_color: (i32, i32, i32),
    fade_mode: BlendMode,
    out: Seq<u8>,
) -> bool {
    &&& forall|level: int, c: int|
        0 <= level < 32 && 0 <= c < 256 ==> is_light_entry(
            math,
            fade_mode,
            pal,
            fade_color,
            level,
            c,
            #[trigger] map_entry(out, level, c),
        )
    &&& forall|c: int|
        0 <= c < 256 ==> is_invulnerability_entry(
            math,
            pal,
            invuln_low_color,
            invuln_high_color,
            c,
            #[trigger] map_entry(out, 32, c),
        )
    &&& forall|c: int| 0 <= c < 256 ==> #[trigger] map_entry(out, 33, c) == 0
}

/// Writes the eight pages of the hurt ramp: page `k` is `playpal` shifted
/// toward `rgb` by `(k + 1) / 9`.
pub fn build_hurt_palette<F: Fn(ColorOp) -> (i32, i32, i32)>(
    playpal: &[u8],
    playpal_at_hurt_start: &mut [u8],
    rgb: (i32, i32, i32),
    mode: BlendMode,
    math: &F,
)
    requires
        playpal@.len() >= 768,
        old(playpal_at_hurt_start)@.len() >= 8 * 768,
        forall|op: ColorOp| call_requires(math, (op,)),
    ensures
        kept_from(old(playpal_at_hurt_start)@, final(playpal_at_hurt_start)@, 6144),
        is_ramp(math, mode, playpal@, rgb, 0, 8, 9, final(playpal_at_hurt_start)@),
{
    shift_ramp(playpal, playpal_at_hurt_start, rgb, mode, 8, 9, math);
}

/// Writes the four pages of the pickup ramp: page `k` is `playpal` shifted
/// toward `rgb` by `(k + 1) / 8`.
pub fn build_pickup_palette<F: Fn(ColorOp) -> (i32, i32, i32)>(
    playpal: &[u8],
    playpal_at_pickup_start: &mut [u8],
    rgb: (i32, i32, i32),
    mode: BlendMode,
    math: &F,
)
    requires
        playpal@.len() >= 768,
        old(playpal_at_pickup_start)@.len() >= 4 * 768,
        forall|op: ColorOp| call_requires(math, (op,)),
    ensures
        kept_from(old(playpal_at_pickup_start)@, final(playpal_at_pickup_start)@, 3072),
        is_ramp(math, mode, playpal@, rgb, 0, 4, 8, final(playpal_at_pickup_start)@),
{
    shift_ramp(playpal, playpal_at_pickup_start, rgb, mode, 4, 8, math);
}

/// Writes the radiation page: `playpal` shifted toward `rgb` by one eighth.
pub fn build_radiation_palette<F: Fn(ColorOp) -> (i32, i32, i32)>(
    playpal: &[u8],
    playpal_at_radiation_start: &mut [u8],
    rgb: (i32, i32, i32),
    mode: BlendMode,
    math: &F,
)
    requires
        playpal@.len() >= 768,
        old(playpal_at_radiation_start)@.len() >= 768,
        forall|op: ColorOp| call_requires(math, (op,)),
    ensures
        kept_from(old(playpal_at_radiation_start)@, final(playpal_at_radiation_start)@, 768),
        is_ramp(math, mode, playpal@, rgb, 0, 1, 8, final(playpal_at_radiation_start)@),
{
    color_shift_palette(playpal, playpal_at_radiation_start, rgb, 1, 8, &mode, math);
    assert forall|q: int, c: int| 0 <= q < 1 && 0 <= c < 256 implies is_shifted_color(
        math,
        mode,
        color_at(playpal@, c),
        rgb,
        (q + 1) as i32,
        8,
        #[trigger] page_color(playpal_at_radiation_start@, q, c),
    ) by {
        assert(page_color(playpal_at_radiation_start@, q, c) == color_at(
            playpal_at_radiation_start@,
            c,
        ));
    }
}

/// A ramp written at the start of the tail of a buffer is a ramp of the
/// whole buffer, `first` pages further on.
pub proof fn lemma_ramp_in_tail<F: Fn(ColorOp) -> (i32, i32, i32)>(
    math: &F,
    mode: BlendMode,
    pal: Seq<u8>,
    rgb: (i32, i32, i32),
    first: int,
    pages: int,
    steps: i32,
    head: Seq<u8>,
    tail: Seq<u8>,
)
    requires
        first >= 0,
        pages >= 0,
        head.len() == first * 768,
        tail.len() >= pages * 768,
        is_ramp(math, mode, pal, rgb, 0, pages, steps, tail),
    ensures
        is_ramp(math, mode, pal, rgb, first, pages, steps, head + tail),
{
    let whole = head + tail;
    assert forall|q: int, c: int|
        first <= q < first + pages && 0 <= c < 256 implies is_shifted_color(
        math,
        mode,
        color_at(pal, c),
        rgb,
        (q - first + 1) as i32,
        steps,
        #[trigger] page_color(whole, q, c),
    ) by {
        assert(page_color(whole, q, c) == page_color(tail, q - first, c));
    }
}

/// A ramp stays one when the bytes of its pages stay.
pub proof fn lemma_ramp_kept<F: Fn(ColorOp) -> (i32, i32, i32)>(
    math: &F,
    mode: BlendMode,
    pal: Seq<u8>,
    rgb: (i32, i32, i32),
    first: int,
    pages: int,
    steps: i32,
    before: Seq<u8>,
    after: Seq<u8>,
)
    requires
        first >= 0,
        pages >= 0,
        forall|i: int| first * 768 <= i < (first + pages) * 768 ==> after[i] == before[i],
        is_ramp(math, mode, pal, rgb, first, pages, steps, before),
    ensures
        is_ramp(math, mode, pal, rgb, first, pages, steps, after),
{
    assert forall|q: int, c: int|
        first <= q < first + pages && 0 <= c < 256 implies is_shifted_color(
        math,
        mode,
        color_at(pal, c),
        rgb,
        (q - first + 1) as i32,
        steps,
        #[trigger] page_color(after, q, c),
    ) by {
        assert(page_color(after, q, c) == page_color(before, q, c));
    }
}

/// Builds the fourteen palette pages from the base page: the base page
/// itself, then the hurt, pickup and radiation ramps. Bytes after the
/// fourteen pages stay.
pub fn build_palette<F: Fn(ColorOp) -> (i32, i32, i32)>(
    playpal_page_0: &[u8],
    outpal: &mut [u8],
    hurt_color: (i32, i32, i32),
    pickup_color: (i32, i32, i32),
    radiation_color: (i32, i32, i32),
    hurt_mode: BlendMode,
    pickup_mode: BlendMode,
    radiation_mode: BlendMode,
    math: &F,
)
    requires
        playpal_page_0@.len() >= 768,
        old(outpal)@.len() >= 10752,
        forall|op: ColorOp| call_requires(math, (op,)),
    ensures
        kept_from(old(outpal)@, final(outpal)@, 10752),
        is_playpal(
            math,
            playpal_page_0@,
            hurt_color,
            pickup_color,
            radiation_color,
            hurt_mode,
            pickup_mode,
            radiation_mode,
            final(outpal)@,
        ),
{
    let mut i: usize = 0;
    while i < 768
        invariant
            i <= 768,
            playpal_page_0@.len() >= 768,
            outpal@.len() == old(outpal)@.len(),
            outpal@.len() >= 10752,
            forall|j: int| 0 <= j < i ==> outpal@[j] == playpal_page_0@[j],
            forall|j: int| 768 <= j < outpal@.len() ==> outpal@[j] == old(outpal)@[j],
        decreases 768 - i,
    {
        outpal[i] = playpal_page_0[i];
        i += 1;
    }
    let ghost s0 = outpal@;
    let (_, hurt) = outpal.split_at_mut(768);
    build_hurt_palette(playpal_page_0, hurt, hurt_color, hurt_mode, math);
    let ghost s1 = outpal@;
    proof {
        lemma_ramp_in_tail(
            math,
            hurt_mode,
            playpal_page_0@,
            hurt_color,
            1,
            8,
            9,
            s0.subrange(0, 768),
            hurt@,
        );
        assert(s1 =~= s0.subrange(0, 768) + hurt@);
    }
    let (_, pickup) = outpal.split_at_mut(6912);
    build_pickup_palette(playpal_page_0, pickup, pickup_color, pickup_mode, math);
    let ghost s2 = outpal@;
    proof {
        lemma_ramp_in_tail(
            math,
            pickup_mode,
            playpal_page_0@,
            pickup_color,
            9,
            4,
            8,
            s1.subrange(0, 6912),
            pickup@,
        );
        assert(s2 =~= s1.subrange(0, 6912) + pickup@);
        lemma_ramp_kept(math, hurt_mode, playpal_page_0@, hurt_color, 1, 8, 9, s1, s2);
    }
    let (_, radiation) = outpal.split_at_mut(9984);
    build_radiation_palette(playpal_page_0, radiation, radiation_color, radiation_mode, math);
    proof {
        let s3 = outpal@;
        lemma_ramp_in_tail(
            math,
            radiation_mode,
            playpal_page_0@,
            radiation_color,
            13,
            1,
            8,
            s2.subrange(0, 9984),
            radiation@,
        );
        assert(s3 =~= s2.subrange(0, 9984) + radiation@);
        lemma_ramp_kept(math, hurt_mode, playpal_page_0@, hurt_color, 1, 8, 9, s2, s3);
        lemma_ramp_kept(math, pickup_mode, playpal_page_0@, pickup_color, 9, 4, 8, s2, s3);
    }
}

/// `out` holds the fourteen palette pages of the engine's own effects, all
/// by the integer rule: hurt toward (255, 0, 0), pickup toward
/// (215, 186, 69), radiation toward (0, 256, 0).
pub open spec fn is_vanilla_playpal(pal: Seq<u8>, out: Seq<u8>) -> bool {
    &&& forall|i: int| 0 <= i < 768 ==> out[i] == pal[i]
    &&& forall|q: int, c: int|
        1 <= q < 9 && 0 <= c < 256 ==> #[trigger] page_color(out, q, c) == normal_shift(
            color_at(pal, c),
            (255, 0, 0),
            q,
            9,
        )
    &&& forall|q: int, c: int|
        9 <= q < 13 && 0 <= c < 256 ==> #[trigger] page_color(out, q, c) == normal_shift(
            color_at(pal, c),
            (215, 186, 69),
            q - 8,
            8,
        )
    &&& forall|c: int|
        0 <= c < 256 ==> #[trigger] page_color(out, 13, c) == normal_shift(
            color_at(pal, c),
            (0, 256, 0),
            1,
            8,
        )
}

/// Builds the fourteen palette pages of the engine's own effects. Bytes
/// after the fourteen pages stay.
pub fn build_vanilla_palette(playpal_page_0: &[u8], outpal: &mut [u8])
    requires
        playpal_page_0@.len() >= 768,
        old(outpal)@.len() >= 10752,
    ensures
        kept_from(old(outpal)@, final(outpal)@, 10752),
        is_vanilla_playpal(playpal_page_0@, final(outpal)@),
{
    build_palette(
        playpal_page_0,
        outpal,
        (255, 0, 0),
        (215, 186, 69),
        (0, 256, 0),
        BlendMode::Normal,
        BlendMode::Normal,
        BlendMode::Normal,
        &no_color_math,
    );
    proof {
        let pal = playpal_page_0@;
        let out = outpal@;
        assert forall|q: int, c: int| 1 <= q < 9 && 0 <= c < 256 implies #[trigger] page_color(
            out,
            q,
            c,
        ) == normal_shift(color_at(pal, c), (255, 0, 0), q, 9) by {
            assert((q - 1 + 1) as i32 == q);
        }
        assert forall|q: int, c: int| 9 <= q < 13 && 0 <= c < 256 implies #[trigger] page_color(
            out,
            q,
            c,
        ) == normal_shift(color_at(pal, c), (215, 186, 69), q - 8, 8) by {
            assert((q - 9 + 1) as i32 == q - 8);
        }
        assert forall|c: int| 0 <= c < 256 implies #[trigger] page_color(out, 13, c)
            == normal_shift(color_at(pal, c), (0, 256, 0), 1, 8) by {
            assert((13 - 13 + 1) as i32 == 1);
        }
    }
}

/// Page 0 of the darkness pages is the identity on every entry that keeps
/// its place.
pub proof fn lemma_full_brightness_identity<F: Fn(ColorOp) -> (i32, i32, i32)>(
    math: &F,
    pal: Seq<u8>,
    fade: (i32, i32, i32),
    n: int,
    idx: u8,
)
    requires
        keeps_its_place(pal, fade, n),
        is_light_entry(math, BlendMode::Normal, pal, fade, 0, n, idx),
    ensures
        idx == n,
{
    let source = color_at(pal, n);
    let rgb_out = choose|rgb_out: (u8, u8, u8)|
        #[trigger] is_faded_color(math, BlendMode::Normal, source, fade, 0, rgb_out)
            && is_best_color(pal, rgb_out, idx as int);
    lemma_fade_channel_at_full_brightness(source.0 as int, fade.0 as int);
    lemma_fade_channel_at_full_brightness(source.1 as int, fade.1 as int);
    lemma_fade_channel_at_full_brightness(source.2 as int, fade.2 as int);
    assert(rgb_out == source);
    lemma_best_color_finds_own_entry(pal, n, idx as int);
}

/// Builds the thirty-four pages of the remapping table: the darkness
/// levels, the invulnerability remap and the reserved page of zeros. Bytes
/// after the thirty-four pages stay.
pub fn build_colormap<F: Fn(ColorOp) -> (i32, i32, i32)>(
    playpal_page_0: &[u8],
    outmap: &mut [u8],
    fade_color: (i32, i32, i32),
    invuln_low_color: (i32, i32, i32),
    invuln_high_color: (i32, i32, i32),
    fade_mode: BlendMode,
    math: &F,
)
    requires
        playpal_page_0@.len() >= 768,
        old(outmap)@.len() >= 8704,
        forall|op: ColorOp| call_requires(math, (op,)),
    ensures
        kept_from(old(outmap)@, final(outmap)@, 8704),
        is_colormap(
            math,
            playpal_page_0@,
            fade_color,
            invuln_low_color,
            invuln_high_color,
            fade_mode,
            final(outmap)@,
        ),
        fade_mode == BlendMode::Normal ==> forall|n: int|
            keeps_its_place(playpal_page_0@, fade_color, n) ==> #[trigger] map_entry(
                final(outmap)@,
                0,
                n,
            ) == n,
{
    build_lights_colormap(playpal_page_0, outmap, fade_color, fade_mode, math);
    let ghost s1 = outmap@;
    let (_, invuln) = outmap.split_at_mut(8192);
    build_invulnerability_colormap(
        playpal_page_0,
        invuln,
        invuln_low_color,
        invuln_high_color,
        math,
    );
    let ghost s2 = outmap@;
    proof {
        assert(s2 =~= s1.subrange(0, 8192) + invuln@);
        assert forall|level: int, c: int|
            0 <= level < 32 && 0 <= c < 256 implies #[trigger] map_entry(
            s2,
            level,
            c,
        ) == map_entry(s1, level, c) by {}
        assert forall|c: int| 0 <= c < 256 implies #[trigger] map_entry(s2, 32, c)
            == invuln@[c] by {}
        assert forall|j: int| 8704 <= j < s2.len() implies s2[j] == old(outmap)@[j] by {
            assert(s2[j] == invuln@[j - 8192]);
            assert(s1.subrange(8192, s1.len() as int)[j - 8192] == s1[j]);
        }
    }
    let mut i: usize = 8448;
    while i < 8704
        invariant
            8448 <= i <= 8704,
            outmap@.len() == s2.len(),
            outmap@.len() >= 8704,
            forall|j: int| 0 <= j < 8448 ==> outmap@[j] == s2[j],
            forall|j: int| 8448 <= j < i ==> outmap@[j] == 0,
            forall|j: int| 8704 <= j < outmap@.len() ==> outmap@[j] == old(outmap)@[j],
        decreases 8704 - i,
    {
        outmap[i] = 0;
        i += 1;
    }
    proof {
        let s3 = outmap@;
        assert forall|level: int, c: int| 0 <= level < 32 && 0 <= c < 256 implies is_light_entry(
            math,
            fade_mode,
            playpal_page_0@,
            fade_color,
            level,
            c,
            #[trigger] map_entry(s3, level, c),
        ) by {
            assert(map_entry(s3, level, c) == map_entry(s2, level, c));
            assert(map_entry(s2, level, c) == map_entry(s1, level, c));
        }
        assert forall|c: int| 0 <= c < 256 implies is_invulnerability_entry(
            math,
            playpal_page_0@,
            invuln_low_color,
            invuln_high_color,
            c,
            #[trigger] map_entry(s3, 32, c),
        ) by {
            assert(map_entry(s3, 32, c) == map_entry(s2, 32, c));
            assert(map_entry(s2, 32, c) == invuln@[c]);
        }
        assert forall|c: int| 0 <= c < 256 implies #[trigger] map_entry(s3, 33, c) == 0 by {}
        if fade_mode == BlendMode::Normal {
            assert forall|n: int|
                keeps_its_place(playpal_page_0@, fade_color, n) implies #[trigger] map_entry(
                s3,
                0,
                n,
            ) == n by {
                lemma_full_brightness_identity(
                    math,
                    playpal_page_0@,
                    fade_color,
                    n,
                    map_entry(s3, 0, n),
                );
            }
        }
    }
}

/// Builds the remapping table of the engine's own effects: fading to
/// black by the integer rule, invulnerability from black to white.
pub fn build_vanilla_colormap<F: Fn(ColorOp) -> (i32, i32, i32)>(
    playpal_page_0: &[u8],
    outmap: &mut [u8],
    math: &F,
)
    requires
        playpal_page_0@.len() >= 768,
        old(outmap)@.len() >= 8704,
        forall|op: ColorOp| call_requires(math, (op,)),
    ensures
        kept_from(old(outmap)@, final(outmap)@, 8704),
        is_colormap(
            math,
            playpal_page_0@,
            (0, 0, 0),
            (0, 0, 0),
            (255, 255, 255),
            BlendMode::Normal,
            final(outmap)@,
        ),
        forall|n: int|
            keeps_its_place(playpal_page_0@, (0, 0, 0), n) ==> #[trigger] map_entry(
                final(outmap)@,
                0,
                n,
            ) == n,
{
    build_colormap(
        playpal_page_0,
        outmap,
        (0, 0, 0),
        (0, 0, 0),
        (255, 255, 255),
        BlendMode::Normal,
        math,
    );
}

/// The remapping table depends on the first page of the palette only: what
/// is the table of one palette is the table of every palette with the same
/// first 768 bytes.
pub proof fn lemma_colormap_reads_first_page<F: Fn(ColorOp) -> (i32, i32, i32)>(
    math: &F,
    pal: Seq<u8>,
    other: Seq<u8>,
    fade_color: (i32, i32, i32),
    invuln_low_color: (i32, i32, i32),
    invuln_high_color: (i32, i32, i32),
    fade_mode: BlendMode,
    out: Seq<u8>,
)
    requires
        pal.len() >= 768,
        other.len() >= 768,
        pal.subrange(0, 768) == other.subrange(0, 768),
        is_colormap(math, pal, fade_color, invuln_low_color, invuln_high_color, fade_mode, out),
    ensures
        is_colormap(math, other, fade_color, invuln_low_color, invuln_high_color, fade_mode, out),
{
    assert forall|level: int, c: int| 0 <= level < 32 && 0 <= c < 256 implies is_light_entry(
        math,
        fade_mode,
        other,
        fade_color,
        level,
        c,
        #[trigger] map_entry(out, level, c),
    ) by {
        let idx = map_entry(out, level, c);
        assert(is_light_entry(math, fade_mode, pal, fade_color, level, c, idx));
        let rgb_out = choose|rgb_out: (u8, u8, u8)|
            #[trigger] is_faded_color(math, fade_mode, color_at(pal, c), fade_color, level, rgb_out)
                && is_best_color(pal, rgb_out, idx as int);
        lemma_same_first_page(pal, other, c);
        lemma_best_color_reads_first_page(pal, other, rgb_out, idx as int);
        assert(is_faded_color(math, fade_mode, color_at(other, c), fade_color, level, rgb_out));
    }
    assert forall|c: int| 0 <= c < 256 implies is_invulnerability_entry(
        math,
        other,
        invuln_low_color,
        invuln_high_color,
        c,
        #[trigger] map_entry(out, 32, c),
    ) by {
        let idx = map_entry(out, 32, c);
        assert(is_invulnerability_entry(math, pal, invuln_low_color, invuln_high_color, c, idx));
        let mixed = choose|mixed: (i32, i32, i32)|
            #[trigger] call_ensures(
                math,
                (
                    ColorOp::BrightnessMix {
                        low: invuln_low_color,
                        high: invuln_high_color,
                        base: color_at(pal, c),
                    },
                ),
                mixed,
            ) && is_best_color(pal, low_bytes(mixed), idx as int);
        lemma_same_first_page(pal, other, c);
        lemma_best_color_reads_first_page(pal, other, low_bytes(mixed), idx as int);
    }
}

} // verus!
