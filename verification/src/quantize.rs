//! Nearest-colour search in a palette page of 256 three-byte colours.

use vstd::prelude::*;

verus! {

/// Colour `i` of a buffer of three-byte colours.
pub open spec fn color_at(buf: Seq<u8>, i: int) -> (u8, u8, u8) {
    (buf[3 * i], buf[3 * i + 1], buf[3 * i + 2])
}

/// Channel `k` of colour `i` of the palette page held in the first 768 bytes
/// of `pal`.
pub open spec fn channel(pal: Seq<u8>, i: int, k: int) -> int {
    pal[3 * i + k] as int
}

/// Squared distance between colour `i` of `pal` and `rgb`.
pub open spec fn distortion(pal: Seq<u8>, i: int, rgb: (u8, u8, u8)) -> int {
    (rgb.0 - channel(pal, i, 0)) * (rgb.0 - channel(pal, i, 0))
        + (rgb.1 - channel(pal, i, 1)) * (rgb.1 - channel(pal, i, 1))
        + (rgb.2 - channel(pal, i, 2)) * (rgb.2 - channel(pal, i, 2))
}

/// The distortion a palette entry has to beat to be chosen at all: twice the
/// squared magnitude of the target.
pub open spec fn seed_distortion(rgb: (u8, u8, u8)) -> int {
    2 * (rgb.0 * rgb.0 + rgb.1 * rgb.1 + rgb.2 * rgb.2)
}

/// `idx` is the entry that the search settles on for `rgb`: the first of the
/// entries with the least distortion, where that distortion is below the
/// seed; entry 0 where no entry is.
pub open spec fn is_best_color(pal: Seq<u8>, rgb: (u8, u8, u8), idx: int) -> bool {
    &&& 0 <= idx < 256
    &&& if exists|j: int| 0 <= j < 256 && distortion(pal, j, rgb) < seed_distortion(rgb) {
        &&& distortion(pal, idx, rgb) < seed_distortion(rgb)
        &&& forall|j: int|
            0 <= j < 256 ==> distortion(pal, idx, rgb) <= #[trigger] distortion(pal, j, rgb)
        &&& forall|j: int|
            0 <= j < idx ==> distortion(pal, idx, rgb) < #[trigger] distortion(pal, j, rgb)
    } else {
        idx == 0
    }
}

/// Index of the palette entry nearest to `rgb` by squared distance; of equally
/// near entries the first.
pub fn best_color(playpal: &[u8], rgb: (u8, u8, u8)) -> (idx: u8)
    requires
        playpal@.len() >= 768,
    ensures
        is_best_color(playpal@, rgb, idx as int),
{
    let r: i32 = rgb.0 as i32;
    let g: i32 = rgb.1 as i32;
    let b: i32 = rgb.2 as i32;
    assert(0 <= r * r <= 65025 && 0 <= g * g <= 65025 && 0 <= b * b <= 65025) by (nonlinear_arith)
        requires
            0 <= r <= 255,
            0 <= g <= 255,
            0 <= b <= 255,
    ;
    let mut best_distortion: i32 = (r * r + g * g + b * b) * 2;
    let mut best: u8 = 0;
    let mut i: usize = 0;
    while i < 256
        invariant
            i <= 256,
            playpal@.len() >= 768,
            r == rgb.0,
            g == rgb.1,
            b == rgb.2,
            0 <= best_distortion <= seed_distortion(rgb),
            best_distortion == seed_distortion(rgb) ==> best == 0 && forall|j: int|
                0 <= j < i ==> #[trigger] distortion(playpal@, j, rgb) >= seed_distortion(rgb),
            best_distortion < seed_distortion(rgb) ==> {
                &&& best < i
                &&& best_distortion == distortion(playpal@, best as int, rgb)
                &&& forall|j: int|
                    0 <= j < i ==> best_distortion <= #[trigger] distortion(playpal@, j, rgb)
                &&& forall|j: int|
                    0 <= j < best ==> best_distortion < #[trigger] distortion(playpal@, j, rgb)
            },
        decreases 256 - i,
    {
        let offset: usize = i * 3;
        let dr: i32 = r - playpal[offset] as i32;
        let dg: i32 = g - playpal[offset + 1] as i32;
        let db: i32 = b - playpal[offset + 2] as i32;
        assert(0 <= dr * dr <= 65025 && 0 <= dg * dg <= 65025 && 0 <= db * db <= 65025)
            by (nonlinear_arith)
            requires
                -255 <= dr <= 255,
                -255 <= dg <= 255,
                -255 <= db <= 255,
        ;
        let d: i32 = dr * dr + dg * dg + db * db;
        assert(d == distortion(playpal@, i as int, rgb));
        if d < best_distortion {
            best = i as u8;
            best_distortion = d;
        }
        i += 1;
    }
    best
}

/// The search settles on one entry only.
pub proof fn lemma_best_color_unique(pal: Seq<u8>, rgb: (u8, u8, u8), a: int, b: int)
    requires
        is_best_color(pal, rgb, a),
        is_best_color(pal, rgb, b),
    ensures
        a == b,
{
    if exists|j: int| 0 <= j < 256 && distortion(pal, j, rgb) < seed_distortion(rgb) {
        if a < b {
            assert(distortion(pal, b, rgb) < distortion(pal, a, rgb));
            assert(distortion(pal, a, rgb) <= distortion(pal, b, rgb));
        } else if b < a {
            assert(distortion(pal, a, rgb) < distortion(pal, b, rgb));
            assert(distortion(pal, b, rgb) <= distortion(pal, a, rgb));
        }
    }
}

/// Of two entries at the same distance from the target the search never
/// returns the later one; where those two are below the seed and nearer
/// than every other entry, it returns the earlier one.
pub proof fn lemma_tie_goes_to_lower_index(
    pal: Seq<u8>,
    rgb: (u8, u8, u8),
    lower: int,
    higher: int,
    idx: int,
)
    requires
        0 <= lower < higher < 256,
        distortion(pal, lower, rgb) == distortion(pal, higher, rgb),
        is_best_color(pal, rgb, idx),
    ensures
        idx != higher,
        distortion(pal, lower, rgb) < seed_distortion(rgb) && (forall|k: int|
            0 <= k < 256 && k != lower && k != higher ==> distortion(pal, lower, rgb)
                < #[trigger] distortion(pal, k, rgb)) ==> idx == lower,
{
    if exists|j: int| 0 <= j < 256 && distortion(pal, j, rgb) < seed_distortion(rgb) {
        if idx == higher {
            assert(distortion(pal, idx, rgb) < distortion(pal, lower, rgb));
        }
        if distortion(pal, lower, rgb) < seed_distortion(rgb) && (forall|k: int|
            0 <= k < 256 && k != lower && k != higher ==> distortion(pal, lower, rgb)
                < #[trigger] distortion(pal, k, rgb)) {
            if idx != lower {
                assert(distortion(pal, idx, rgb) <= distortion(pal, lower, rgb));
            }
        }
    }
}

/// A distortion is never negative, and is zero only for the colour itself.
pub proof fn lemma_distortion_zero(pal: Seq<u8>, i: int, rgb: (u8, u8, u8))
    ensures
        distortion(pal, i, rgb) >= 0,
        distortion(pal, i, rgb) == 0 ==> color_at(pal, i) == rgb,
{
    let dr = rgb.0 - channel(pal, i, 0);
    let dg = rgb.1 - channel(pal, i, 1);
    let db = rgb.2 - channel(pal, i, 2);
    assert(dr * dr >= 0 && (dr * dr == 0 ==> dr == 0)) by (nonlinear_arith);
    assert(dg * dg >= 0 && (dg * dg == 0 ==> dg == 0)) by (nonlinear_arith);
    assert(db * db >= 0 && (db * db == 0 ==> db == 0)) by (nonlinear_arith);
}

/// A colour that the palette holds is found again at its first place,
/// unless it is black and stands elsewhere than at entry 0: black has seed
/// zero, which no entry can beat.
pub proof fn lemma_best_color_finds_own_entry(pal: Seq<u8>, n: int, idx: int)
    requires
        0 <= n < 256,
        forall|j: int| 0 <= j < n ==> color_at(pal, j) != color_at(pal, n),
        n == 0 || color_at(pal, n) != (0u8, 0u8, 0u8),
        is_best_color(pal, color_at(pal, n), idx),
    ensures
        idx == n,
{
    let rgb = color_at(pal, n);
    assert(rgb.0 - channel(pal, n, 0) == 0);
    assert(rgb.1 - channel(pal, n, 1) == 0);
    assert(rgb.2 - channel(pal, n, 2) == 0);
    assert(distortion(pal, n, rgb) == 0);
    if rgb == (0u8, 0u8, 0u8) {
        assert(seed_distortion(rgb) == 0);
        assert forall|j: int| 0 <= j < 256 implies !(distortion(pal, j, rgb) < seed_distortion(
            rgb,
        )) by {
            lemma_distortion_zero(pal, j, rgb);
        }
    } else {
        assert(seed_distortion(rgb) > 0) by (nonlinear_arith)
            requires
                rgb.0 > 0 || rgb.1 > 0 || rgb.2 > 0,
                seed_distortion(rgb) == 2 * (rgb.0 * rgb.0 + rgb.1 * rgb.1 + rgb.2 * rgb.2),
        ;
        assert(distortion(pal, n, rgb) < seed_distortion(rgb));
        lemma_distortion_zero(pal, idx, rgb);
        assert(distortion(pal, idx, rgb) <= distortion(pal, n, rgb));
        if idx > n {
            assert(distortion(pal, idx, rgb) < distortion(pal, n, rgb));
        }
    }
}

/// The search reads the first page only: two palettes that agree on their
/// first 768 bytes give the same entry.
pub proof fn lemma_best_color_reads_first_page(
    pal: Seq<u8>,
    other: Seq<u8>,
    rgb: (u8, u8, u8),
    idx: int,
)
    requires
        pal.len() >= 768,
        other.len() >= 768,
        pal.subrange(0, 768) == other.subrange(0, 768),
        is_best_color(pal, rgb, idx),
    ensures
        is_best_color(other, rgb, idx),
{
    assert forall|j: int| 0 <= j < 256 implies #[trigger] distortion(other, j, rgb) == distortion(
        pal,
        j,
        rgb,
    ) by {
        lemma_same_first_page(pal, other, j);
    }
    if exists|j: int| 0 <= j < 256 && distortion(pal, j, rgb) < seed_distortion(rgb) {
        let j = choose|j: int| 0 <= j < 256 && distortion(pal, j, rgb) < seed_distortion(rgb);
        assert(distortion(other, j, rgb) < seed_distortion(rgb));
    } else {
        assert forall|j: int| 0 <= j < 256 implies !(distortion(other, j, rgb) < seed_distortion(
            rgb,
        )) by {
            assert(distortion(other, j, rgb) == distortion(pal, j, rgb));
        }
    }
}

/// Two palettes that agree on their first 768 bytes hold the same 256
/// colours.
pub proof fn lemma_same_first_page(pal: Seq<u8>, other: Seq<u8>, c: int)
    requires
        pal.len() >= 768,
        other.len() >= 768,
        pal.subrange(0, 768) == other.subrange(0, 768),
        0 <= c < 256,
    ensures
        color_at(pal, c) == color_at(other, c),
        channel(pal, c, 0) == channel(other, c, 0),
        channel(pal, c, 1) == channel(other, c, 1),
        channel(pal, c, 2) == channel(other, c, 2),
{
    assert(pal[3 * c] == pal.subrange(0, 768)[3 * c]);
    assert(pal[3 * c + 1] == pal.subrange(0, 768)[3 * c + 1]);
    assert(pal[3 * c + 2] == pal.subrange(0, 768)[3 * c + 2]);
    assert(other[3 * c] == other.subrange(0, 768)[3 * c]);
    assert(other[3 * c + 1] == other.subrange(0, 768)[3 * c + 1]);
    assert(other[3 * c + 2] == other.subrange(0, 768)[3 * c + 2]);
}

} // verus!
