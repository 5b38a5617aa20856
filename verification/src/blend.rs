//! Blending of one colour with a target: the integer rules of the normal
//! mode, and the floating-point modes by way of the caller's colour
//! computations.

use vstd::prelude::*;
use crate::arith::{
    div_toward_zero, lemma_product_fits, lemma_trunc_div_bound,
    lemma_trunc_div_exact, low_byte, magnitude, trunc_div, wrap_byte,
};
use crate::{BlendMode, ColorOp};

verus! {

/// A byte colour with each channel as a wide integer.
pub open spec fn widen(c: (u8, u8, u8)) -> (i32, i32, i32) {
    (c.0 as i32, c.1 as i32, c.2 as i32)
}

/// The low byte of each channel of `c`.
pub open spec fn low_bytes(c: (i32, i32, i32)) -> (u8, u8, u8) {
    (wrap_byte(c.0 as int), wrap_byte(c.1 as int), wrap_byte(c.2 as int))
}

/// One channel moved linearly from `base` toward `target` by
/// `shift / steps`, in integers.
pub open spec fn shift_channel(base: int, target: int, shift: int, steps: int) -> u8 {
    wrap_byte(base + trunc_div((target - base) * shift, steps))
}

/// One channel faded from `base` toward `fade` at darkness `level` of 32,
/// rounded as the engine rounds.
pub open spec fn fade_channel(base: int, fade: int, level: int) -> u8 {
    wrap_byte(fade + trunc_div((base - fade) * (32 - level) + 16, 32))
}

/// `source` moved linearly toward `rgb` by `shift / steps`, channel by
/// channel.
pub open spec fn normal_shift(
    source: (u8, u8, u8),
    rgb: (i32, i32, i32),
    shift: int,
    steps: int,
) -> (u8, u8, u8) {
    (
        shift_channel(source.0 as int, rgb.0 as int, shift, steps),
        shift_channel(source.1 as int, rgb.1 as int, shift, steps),
        shift_channel(source.2 as int, rgb.2 as int, shift, steps),
    )
}

/// `source` faded toward `fade` at darkness `level`, channel by channel.
pub open spec fn normal_fade(source: (u8, u8, u8), fade: (i32, i32, i32), level: int) -> (
    u8,
    u8,
    u8,
) {
    (
        fade_channel(source.0 as int, fade.0 as int, level),
        fade_channel(source.1 as int, fade.1 as int, level),
        fade_channel(source.2 as int, fade.2 as int, level),
    )
}

/// `target` is what `mode` makes of `color` laid over `source`, before any
/// mixing: `color` itself under `Normal`, else the answer of `math` to the
/// operation of that mode, with `color` on top.
pub open spec fn is_blend_target<F: Fn(ColorOp) -> (i32, i32, i32)>(
    math: &F,
    mode: BlendMode,
    source: (i32, i32, i32),
    color: (i32, i32, i32),
    target: (i32, i32, i32),
) -> bool {
    match mode {
        BlendMode::Normal => target == color,
        BlendMode::Multiply => call_ensures(
            math,
            (ColorOp::Multiply { top: color, bottom: source },),
            target,
        ),
        BlendMode::Screen => call_ensures(
            math,
            (ColorOp::Screen { top: color, bottom: source },),
            target,
        ),
        BlendMode::Hue => call_ensures(math, (hsv_op(color, source, true, false, false),), target),
        BlendMode::Saturation => call_ensures(
            math,
            (hsv_op(color, source, false, true, false),),
            target,
        ),
        BlendMode::Color => call_ensures(math, (hsv_op(color, source, true, true, false),), target),
        BlendMode::Luminosity => call_ensures(
            math,
            (hsv_op(color, source, false, false, true),),
            target,
        ),
    }
}

/// The operation that takes from `top` the parts that are flagged and the
/// others from `bottom`.
pub open spec fn hsv_op(
    top: (i32, i32, i32),
    bottom: (i32, i32, i32),
    hue: bool,
    saturation: bool,
    value: bool,
) -> ColorOp {
    ColorOp::CombineHsv {
        top,
        bottom,
        hue_from_top: hue,
        saturation_from_top: saturation,
        value_from_top: value,
    }
}

/// `mixed` is `source` moved by `num / den` toward what `mode` makes of
/// `color` over `source`, as `math` answers.
pub open spec fn is_float_blend<F: Fn(ColorOp) -> (i32, i32, i32)>(
    math: &F,
    mode: BlendMode,
    source: (i32, i32, i32),
    color: (i32, i32, i32),
    num: i32,
    den: i32,
    mixed: (i32, i32, i32),
) -> bool {
    exists|target: (i32, i32, i32)|
        #[trigger] is_blend_target(math, mode, source, color, target) && call_ensures(
            math,
            (ColorOp::Mix { from: source, to: target, num, den },),
            mixed,
        )
}

/// `out` is `source` shifted toward `rgb` by `shift / steps` under `mode`:
/// by the integer rule under `Normal`, else the low bytes of the blend that
/// `math` answers.
pub open spec fn is_shifted_color<F: Fn(ColorOp) -> (i32, i32, i32)>(
    math: &F,
    mode: BlendMode,
    source: (u8, u8, u8),
    rgb: (i32, i32, i32),
    shift: i32,
    steps: i32,
    out: (u8, u8, u8),
) -> bool {
    if mode == BlendMode::Normal {
        out == normal_shift(source, rgb, shift as int, steps as int)
    } else {
        exists|mixed: (i32, i32, i32)|
            #[trigger] is_float_blend(math, mode, widen(source), rgb, shift, steps, mixed) && out
                == low_bytes(mixed)
    }
}

/// `out` is `source` faded toward `fade` at darkness `level` under `mode`:
/// by the engine's integer rule under `Normal`, else the low bytes of the
/// blend by `level / 32` that `math` answers.
pub open spec fn is_faded_color<F: Fn(ColorOp) -> (i32, i32, i32)>(
    math: &F,
    mode: BlendMode,
    source: (u8, u8, u8),
    fade: (i32, i32, i32),
    level: int,
    out: (u8, u8, u8),
) -> bool {
    if mode == BlendMode::Normal {
        out == normal_fade(source, fade, level)
    } else {
        exists|mixed: (i32, i32, i32)|
            #[trigger] is_float_blend(math, mode, widen(source), fade, level as i32, 32, mixed)
                && out == low_bytes(mixed)
    }
}

/// What `mode` makes of `color` laid over `source`, before mixing.
pub fn blend_target<F: Fn(ColorOp) -> (i32, i32, i32)>(
    math: &F,
    mode: BlendMode,
    source: (i32, i32, i32),
    color: (i32, i32, i32),
) -> (target: (i32, i32, i32))
    requires
        forall|op: ColorOp| call_requires(math, (op,)),
    ensures
        is_blend_target(math, mode, source, color, target),
{
    match mode {
        BlendMode::Normal => color,
        BlendMode::Multiply => math(ColorOp::Multiply { top: color, bottom: source }),
        BlendMode::Screen => math(ColorOp::Screen { top: color, bottom: source }),
        BlendMode::Hue => math(
            ColorOp::CombineHsv {
                top: color,
                bottom: source,
                hue_from_top: true,
                saturation_from_top: false,
                value_from_top: false,
            },
        ),
        BlendMode::Saturation => math(
            ColorOp::CombineHsv {
                top: color,
                bottom: source,
                hue_from_top: false,
                saturation_from_top: true,
                value_from_top: false,
            },
        ),
        BlendMode::Color => math(
            ColorOp::CombineHsv {
                top: color,
                bottom: source,
                hue_from_top: true,
                saturation_from_top: true,
                value_from_top: false,
            },
        ),
        BlendMode::Luminosity => math(
            ColorOp::CombineHsv {
                top: color,
                bottom: source,
                hue_from_top: false,
                saturation_from_top: false,
                value_from_top: true,
            },
        ),
    }
}

/// `source` moved by `num / den` toward what `mode` makes of `color` over
/// `source`.
pub fn float_blend<F: Fn(ColorOp) -> (i32, i32, i32)>(
    math: &F,
    mode: BlendMode,
    source: (i32, i32, i32),
    color: (i32, i32, i32),
    num: i32,
    den: i32,
) -> (mixed: (i32, i32, i32))
    requires
        forall|op: ColorOp| call_requires(math, (op,)),
    ensures
        is_float_blend(math, mode, source, color, num, den, mixed),
{
    let target: (i32, i32, i32) = blend_target(math, mode, source, color);
    math(ColorOp::Mix { from: source, to: target, num, den })
}

/// The low byte of each channel.
pub fn channel_bytes(c: (i32, i32, i32)) -> (out: (u8, u8, u8))
    ensures
        out == low_bytes(c),
{
    (low_byte(c.0 as i64), low_byte(c.1 as i64), low_byte(c.2 as i64))
}

/// One channel moved from `base` toward `target` by `shift / steps`.
pub fn shifted_channel(base: u8, target: i32, shift: i32, steps: i32) -> (out: u8)
    requires
        steps != 0,
    ensures
        out == shift_channel(base as int, target as int, shift as int, steps as int),
{
    let diff: i64 = target as i64 - base as i64;
    proof {
        lemma_product_fits(diff as int, shift as int);
    }
    let scaled: i64 = diff * (shift as i64);
    let moved: i64 = div_toward_zero(scaled, steps);
    proof {
        lemma_trunc_div_bound(scaled as int, steps as int);
    }
    low_byte(base as i64 + moved)
}

/// One channel faded from `base` toward `fade` at darkness `level`.
pub fn faded_channel(base: u8, fade: i32, level: i32) -> (out: u8)
    requires
        0 <= level < 32,
    ensures
        out == fade_channel(base as int, fade as int, level as int),
{
    let diff: i64 = base as i64 - fade as i64;
    proof {
        lemma_product_fits(diff as int, 32 - level as int);
    }
    let scaled: i64 = diff * ((32 - level) as i64) + 16;
    let moved: i64 = div_toward_zero(scaled, 32);
    proof {
        lemma_trunc_div_bound(scaled as int, 32);
    }
    low_byte(fade as i64 + moved)
}

/// `source` shifted toward `rgb` by `shift / steps` under `mode`.
pub fn shifted_color<F: Fn(ColorOp) -> (i32, i32, i32)>(
    math: &F,
    mode: BlendMode,
    source: (u8, u8, u8),
    rgb: (i32, i32, i32),
    shift: i32,
    steps: i32,
) -> (out: (u8, u8, u8))
    requires
        mode == BlendMode::Normal ==> steps != 0,
        forall|op: ColorOp| call_requires(math, (op,)),
    ensures
        is_shifted_color(math, mode, source, rgb, shift, steps, out),
{
    match mode {
        BlendMode::Normal => (
            shifted_channel(source.0, rgb.0, shift, steps),
            shifted_channel(source.1, rgb.1, shift, steps),
            shifted_channel(source.2, rgb.2, shift, steps),
        ),
        _ => {
            let wide: (i32, i32, i32) = (source.0 as i32, source.1 as i32, source.2 as i32);
            let mixed: (i32, i32, i32) = float_blend(math, mode, wide, rgb, shift, steps);
            assert(is_float_blend(math, mode, widen(source), rgb, shift, steps, mixed));
            channel_bytes(mixed)
        },
    }
}

/// `source` faded toward `fade` at darkness `level` under `mode`.
pub fn faded_color<F: Fn(ColorOp) -> (i32, i32, i32)>(
    math: &F,
    mode: BlendMode,
    source: (u8, u8, u8),
    fade: (i32, i32, i32),
    level: i32,
) -> (out: (u8, u8, u8))
    requires
        0 <= level < 32,
        forall|op: ColorOp| call_requires(math, (op,)),
    ensures
        is_faded_color(math, mode, source, fade, level as int, out),
{
    match mode {
        BlendMode::Normal => (
            faded_channel(source.0, fade.0, level),
            faded_channel(source.1, fade.1, level),
            faded_channel(source.2, fade.2, level),
        ),
        _ => {
            let wide: (i32, i32, i32) = (source.0 as i32, source.1 as i32, source.2 as i32);
            let mixed: (i32, i32, i32) = float_blend(math, mode, wide, fade, level, 32);
            assert(is_float_blend(math, mode, widen(source), fade, level as int as i32, 32, mixed));
            channel_bytes(mixed)
        },
    }
}

/// Answers every operation with black. It stands in where every mode is
/// `Normal`, so that no operation is ever asked for.
pub fn no_color_math(_op: ColorOp) -> (out: (i32, i32, i32))
    ensures
        out == (0i32, 0i32, 0i32),
{
    (0, 0, 0)
}

/// The ends of the integer shift: by nothing a channel keeps its value, by
/// the whole way it takes the low byte of the target.
pub proof fn lemma_shift_channel_ends(base: int, target: int, steps: int)
    requires
        0 <= base <= 255,
        steps != 0,
    ensures
        shift_channel(base, target, 0, steps) == base,
        shift_channel(base, target, steps, steps) == wrap_byte(target),
{
    let d = target - base;
    assert(d * 0 == 0 * steps) by (nonlinear_arith);
    lemma_trunc_div_exact(0, steps);
    lemma_trunc_div_exact(d, steps);
}

/// At full brightness a channel that the fade colour does not exceed keeps
/// its value.
pub proof fn lemma_fade_channel_at_full_brightness(base: int, fade: int)
    requires
        0 <= base <= 255,
        fade <= base,
    ensures
        fade_channel(base, fade, 0) == base,
{
    let x = base - fade;
    assert(trunc_div(x * 32 + 16, 32) == x);
}

/// A darker level brings a channel no further from the fade colour: for
/// channels in range, the distance of the faded channel from `fade` does
/// not grow with the level.
pub proof fn lemma_fade_monotone(base: int, fade: int, lighter: int, darker: int)
    requires
        0 <= base <= 255,
        0 <= fade <= 255,
        0 <= lighter <= darker < 32,
    ensures
        magnitude(fade_channel(base, fade, darker) - fade) <= magnitude(
            fade_channel(base, fade, lighter) - fade,
        ),
{
    let x = base - fade;
    let k1 = 32 - lighter;
    let k2 = 32 - darker;
    let n1 = x * k1 + 16;
    let n2 = x * k2 + 16;
    let t1 = trunc_div(n1, 32);
    let t2 = trunc_div(n2, 32);
    assert(x >= 0 ==> 16 <= n2 <= n1 <= 32 * x + 16) by (nonlinear_arith)
        requires
            n1 == x * k1 + 16,
            n2 == x * k2 + 16,
            1 <= k2 <= k1 <= 32,
    ;
    assert(x < 0 ==> 32 * x + 16 <= n1 <= n2 <= 16) by (nonlinear_arith)
        requires
            n1 == x * k1 + 16,
            n2 == x * k2 + 16,
            1 <= k2 <= k1 <= 32,
    ;
    if x >= 0 {
        assert(0 <= t2 <= t1 <= x);
    } else {
        assert(x < t1 <= t2 <= 0);
    }
    assert(fade_channel(base, fade, lighter) == fade + t1);
    assert(fade_channel(base, fade, darker) == fade + t2);
}

} // verus!
