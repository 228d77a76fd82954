//! Screen pixels: colour strings, captured regions, the batched pixel
//! check a trigger runs, and decoding a captured PNG.

use vstd::prelude::*;
use crate::config::{Pixel, PixelV, Resolution, pixels_view};
use crate::text::{chars_of, str_eq};

verus! {

// ── Colours ─────────────────────────────────────────────────────────────

/// `s` with every leading copy of `p` removed (`trim_start_matches`).
pub open spec fn strip_all(s: Seq<char>, p: Seq<char>) -> Seq<char>
    decreases s.len(),
{
    if p.len() > 0 && s.len() >= p.len() && s.take(p.len() as int) == p {
        strip_all(s.skip(p.len() as int), p)
    } else {
        s
    }
}

pub open spec fn hex_digit(c: char) -> Option<int> {
    if '0' <= c && c <= '9' {
        Some((c as int) - ('0' as int))
    } else if 'a' <= c && c <= 'f' {
        Some((c as int) - ('a' as int) + 10)
    } else if 'A' <= c && c <= 'F' {
        Some((c as int) - ('A' as int) + 10)
    } else {
        None
    }
}

pub open spec fn all_hex(s: Seq<char>) -> bool {
    forall|i: int| 0 <= i < s.len() ==> #[trigger] hex_digit(s[i]) is Some
}

/// The number written by a run of hex digits.
pub open spec fn hex_value(s: Seq<char>) -> int
    decreases s.len(),
{
    if s.len() == 0 {
        0
    } else {
        hex_value(s.drop_last()) * 16 + hex_digit(s.last())->0
    }
}

/// `u32::from_str_radix(s, 16)`: an optional `+`, then at least one hex
/// digit, the value fitting in 32 bits.
pub open spec fn parse_hex_u32(s: Seq<char>) -> Option<u32> {
    let body = if s.len() > 0 && s[0] == '+' {
        s.drop_first()
    } else {
        s
    };
    if body.len() > 0 && all_hex(body) && hex_value(body) <= u32::MAX {
        Some(hex_value(body) as u32)
    } else {
        None
    }
}

/// A colour string: `0x`, `0X` and `#` prefixes dropped, the rest read as
/// hex; anything unreadable is `0xFFFFFFFF`.
pub open spec fn color_value(s: Seq<char>) -> u32 {
    match parse_hex_u32(strip_all(strip_all(strip_all(s, "0x"@), "0X"@), "#"@)) {
        Some(v) => v,
        None => 0xFFFF_FFFF,
    }
}

fn strip_prefix_all(cs: &Vec<char>, p: &str) -> (r: Vec<char>)
    ensures
        r@ == strip_all(cs@, p@),
{
    let pc = chars_of(p);
    let mut start: usize = 0;
    proof {
        assert(cs@.skip(0) =~= cs@);
    }
    while pc.len() > 0 && cs.len() - start >= pc.len() && crate::text::starts_with(
        &crate::text::char_range(cs.as_slice(), start, cs.len()).as_slice(),
        pc.as_slice(),
    )
        invariant
            start <= cs@.len(),
            pc@ == p@,
            strip_all(cs@, p@) == strip_all(cs@.skip(start as int), p@),
        decreases cs@.len() - start,
    {
        proof {
            let rest = cs@.skip(start as int);
            assert(cs@.subrange(start as int, cs@.len() as int) =~= rest);
            assert(rest.take(p@.len() as int) =~= rest.subrange(0, p@.len() as int));
            assert(rest.skip(p@.len() as int) =~= cs@.skip(start + p@.len()));
        }
        start = start + pc.len();
    }
    proof {
        let rest = cs@.skip(start as int);
        assert(cs@.subrange(start as int, cs@.len() as int) =~= rest);
        if pc@.len() > 0 && rest.len() >= pc@.len() {
            assert(rest.take(p@.len() as int) =~= rest.subrange(0, p@.len() as int));
        }
    }
    crate::text::char_range(cs.as_slice(), start, cs.len())
}

fn hex_digit_of(c: char) -> (r: Option<u32>)
    ensures
        match r {
            Some(d) => hex_digit(c) == Some(d as int),
            None => hex_digit(c) is None,
        },
{
    if '0' <= c && c <= '9' {
        Some((c as u32) - ('0' as u32))
    } else if 'a' <= c && c <= 'f' {
        Some((c as u32) - ('a' as u32) + 10)
    } else if 'A' <= c && c <= 'F' {
        Some((c as u32) - ('A' as u32) + 10)
    } else {
        None
    }
}

proof fn lemma_hex_value_monotone(s: Seq<char>, k: int)
    requires
        0 <= k <= s.len(),
        all_hex(s),
    ensures
        hex_value(s.take(k)) <= hex_value(s),
        0 <= hex_value(s.take(k)),
    decreases s.len() - k,
{
    if k < s.len() {
        lemma_hex_value_monotone(s, k + 1);
        assert(s.take(k + 1).drop_last() =~= s.take(k));
        assert(hex_digit(s.take(k + 1).last()) is Some);
    } else {
        assert(s.take(k) =~= s);
        lemma_hex_value_nonneg(s);
    }
}

proof fn lemma_hex_value_nonneg(s: Seq<char>)
    requires
        all_hex(s),
    ensures
        hex_value(s) >= 0,
    decreases s.len(),
{
    if s.len() > 0 {
        lemma_hex_value_nonneg(s.drop_last());
        assert(hex_digit(s.last()) is Some);
    }
}

fn parse_hex(cs: &Vec<char>) -> (r: Option<u32>)
    ensures
        r == parse_hex_u32(cs@),
{
    let from: usize = if cs.len() > 0 && cs[0] == '+' {
        1
    } else {
        0
    };
    let ghost body = if cs@.len() > 0 && cs@[0] == '+' {
        cs@.drop_first()
    } else {
        cs@
    };
    proof {
        assert(body =~= cs@.skip(from as int));
    }
    if from == cs.len() {
        return None;
    }
    let mut value: u64 = 0;
    let mut i: usize = from;
    while i < cs.len()
        invariant
            from <= i <= cs@.len(),
            body == cs@.skip(from as int),
            body == (if cs@.len() > 0 && cs@[0] == '+' {
                cs@.drop_first()
            } else {
                cs@
            }),
            all_hex(body.take(i - from)),
            value == hex_value(body.take(i - from)),
            value <= u32::MAX,
        decreases cs@.len() - i,
    {
        let ghost k = i - from;
        proof {
            assert(body.take(k + 1).drop_last() =~= body.take(k));
            assert(body.take(k + 1).last() == cs@[i as int]);
        }
        match hex_digit_of(cs[i]) {
            Some(d) => {
                proof {
                    assert(all_hex(body.take(k + 1))) by {
                        assert forall|j: int| 0 <= j < k + 1 implies #[trigger] hex_digit(body.take(k + 1)[j]) is Some by {
                            if j < k {
                                assert(body.take(k + 1)[j] == body.take(k)[j]);
                            }
                        }
                    }
                }
                let next = value * 16 + d as u64;
                proof {
                    assert(hex_value(body.take(k + 1)) == value * 16 + d);
                }
                if next > 0xFFFF_FFFF {
                    proof {
                        if all_hex(body) {
                            lemma_hex_value_monotone(body, k + 1);
                        }
                    }
                    return None;
                }
                value = next;
            },
            None => {
                proof {
                    assert(body[k] == cs@[i as int]);
                    assert(hex_digit(body[k]) is None);
                    assert(!all_hex(body));
                }
                return None;
            },
        }
        i += 1;
    }
    proof {
        assert(body.take(cs@.len() - from) =~= body);
    }
    Some(value as u32)
}

pub fn parse_color(s: &str) -> (r: u32)
    ensures
        r == color_value(s@),
{
    let cs = chars_of(s);
    let a = strip_prefix_all(&cs, "0x");
    let b = strip_prefix_all(&a, "0X");
    let c = strip_prefix_all(&b, "#");
    match parse_hex(&c) {
        Some(v) => v,
        None => 0xFFFF_FFFF,
    }
}

// ── The batched pixel check ─────────────────────────────────────────────

/// A pixel to check: position, target colour (`0xRRGGBB`), and how far each
/// channel may be off.
pub open spec fn channel(c: u32, shift: nat) -> int {
    ((c as int) / (vstd::arithmetic::power2::pow2(shift) as int)) % 256
}

pub open spec fn abs_diff(a: int, b: int) -> int {
    if a >= b {
        a - b
    } else {
        b - a
    }
}

/// A captured colour is within `variation` of the target on each channel
/// (a negative variation, read as an unsigned number, accepts anything).
pub open spec fn colour_close(color: u32, target: u32, variation: i32) -> bool {
    let tol = (variation as u32) as int;
    abs_diff(channel(color, 16), channel(target, 16)) <= tol
        && abs_diff(channel(color, 8), channel(target, 8)) <= tol
        && abs_diff(channel(color, 0), channel(target, 0)) <= tol
}

pub open spec fn min_x(ps: Seq<(i32, i32, u32, i32)>) -> i32
    decreases ps.len(),
{
    if ps.len() <= 1 {
        if ps.len() == 0 {
            0
        } else {
            ps[0].0
        }
    } else {
        let m = min_x(ps.drop_last());
        if ps.last().0 < m {
            ps.last().0
        } else {
            m
        }
    }
}

pub open spec fn min_y(ps: Seq<(i32, i32, u32, i32)>) -> i32
    decreases ps.len(),
{
    if ps.len() <= 1 {
        if ps.len() == 0 {
            0
        } else {
            ps[0].1
        }
    } else {
        let m = min_y(ps.drop_last());
        if ps.last().1 < m {
            ps.last().1
        } else {
            m
        }
    }
}

pub open spec fn max_x(ps: Seq<(i32, i32, u32, i32)>) -> i32
    decreases ps.len(),
{
    if ps.len() <= 1 {
        if ps.len() == 0 {
            0
        } else {
            ps[0].0
        }
    } else {
        let m = max_x(ps.drop_last());
        if ps.last().0 > m {
            ps.last().0
        } else {
            m
        }
    }
}

pub open spec fn max_y(ps: Seq<(i32, i32, u32, i32)>) -> i32
    decreases ps.len(),
{
    if ps.len() <= 1 {
        if ps.len() == 0 {
            0
        } else {
            ps[0].1
        }
    } else {
        let m = max_y(ps.drop_last());
        if ps.last().1 > m {
            ps.last().1
        } else {
            m
        }
    }
}

/// The region a batch of pixels is captured from: its left, top, width and
/// height.
pub open spec fn bounds_spec(ps: Seq<(i32, i32, u32, i32)>) -> (int, int, int, int) {
    (min_x(ps) as int, min_y(ps) as int, max_x(ps) - min_x(ps) + 1, max_y(ps) - min_y(ps) + 1)
}

/// The region of a non-empty batch fits the 32-bit arithmetic it is
/// computed with.
pub open spec fn region_fits(ps: Seq<(i32, i32, u32, i32)>) -> bool {
    let b = bounds_spec(ps);
    b.2 * b.3 <= i32::MAX
}

/// One pixel of the batch matches in the captured region (row-major,
/// `w` wide, starting at `(x0, y0)`); pixels outside the region never do.
pub open spec fn pixel_hit(p: (i32, i32, u32, i32), region: Seq<u32>, x0: int, y0: int, w: int) -> bool {
    let idx = (p.1 - y0) * w + (p.0 - x0);
    0 <= idx < region.len() && colour_close(region[idx], p.2, p.3)
}

/// The batch check: nothing to check never matches; `all` needs every pixel
/// to match, any other mode one.
pub open spec fn batch_matches(ps: Seq<(i32, i32, u32, i32)>, mode: Seq<char>, region: Seq<u32>) -> bool {
    let b = bounds_spec(ps);
    if ps.len() == 0 {
        false
    } else if mode == "all"@ {
        forall|i: int| 0 <= i < ps.len() ==> pixel_hit(#[trigger] ps[i], region, b.0, b.1, b.2)
    } else {
        exists|i: int| 0 <= i < ps.len() && pixel_hit(#[trigger] ps[i], region, b.0, b.1, b.2)
    }
}

proof fn lemma_bounds(ps: Seq<(i32, i32, u32, i32)>)
    requires
        ps.len() > 0,
    ensures
        forall|i: int|
            0 <= i < ps.len() ==> min_x(ps) <= (#[trigger] ps[i]).0 <= max_x(ps) && min_y(ps) <= ps[i].1
                <= max_y(ps),
    decreases ps.len(),
{
    if ps.len() > 1 {
        lemma_bounds(ps.drop_last());
        assert forall|i: int| 0 <= i < ps.len() implies min_x(ps) <= (#[trigger] ps[i]).0 <= max_x(ps)
            && min_y(ps) <= ps[i].1 <= max_y(ps) by {
            if i < ps.len() - 1 {
                assert(ps.drop_last()[i] == ps[i]);
            }
        }
    }
}

/// The bounds of a non-empty batch are taken on by some of its pixels.
proof fn lemma_bounds_attained(ps: Seq<(i32, i32, u32, i32)>)
    requires
        ps.len() > 0,
    ensures
        exists|i: int| 0 <= i < ps.len() && (#[trigger] ps[i]).0 == min_x(ps),
        exists|i: int| 0 <= i < ps.len() && (#[trigger] ps[i]).0 == max_x(ps),
        exists|i: int| 0 <= i < ps.len() && (#[trigger] ps[i]).1 == min_y(ps),
        exists|i: int| 0 <= i < ps.len() && (#[trigger] ps[i]).1 == max_y(ps),
    decreases ps.len(),
{
    if ps.len() == 1 {
        assert(ps[0].0 == min_x(ps));
        assert(ps[0].0 == max_x(ps));
        assert(ps[0].1 == min_y(ps));
        assert(ps[0].1 == max_y(ps));
    } else {
        let q = ps.drop_last();
        let n = ps.len() - 1;
        lemma_bounds_attained(q);
        assert(ps[n] == ps.last());
        if ps.last().0 < min_x(q) {
            assert(ps[n].0 == min_x(ps));
        } else {
            let i = choose|i: int| 0 <= i < q.len() && (#[trigger] q[i]).0 == min_x(q);
            assert(q[i] == ps[i]);
            assert(ps[i].0 == min_x(ps));
        }
        if ps.last().0 > max_x(q) {
            assert(ps[n].0 == max_x(ps));
        } else {
            let i = choose|i: int| 0 <= i < q.len() && (#[trigger] q[i]).0 == max_x(q);
            assert(q[i] == ps[i]);
            assert(ps[i].0 == max_x(ps));
        }
        if ps.last().1 < min_y(q) {
            assert(ps[n].1 == min_y(ps));
        } else {
            let i = choose|i: int| 0 <= i < q.len() && (#[trigger] q[i]).1 == min_y(q);
            assert(q[i] == ps[i]);
            assert(ps[i].1 == min_y(ps));
        }
        if ps.last().1 > max_y(q) {
            assert(ps[n].1 == max_y(ps));
        } else {
            let i = choose|i: int| 0 <= i < q.len() && (#[trigger] q[i]).1 == max_y(q);
            assert(q[i] == ps[i]);
            assert(ps[i].1 == max_y(ps));
        }
    }
}

/// Two batches with the same pixels have the same bounds.
proof fn lemma_same_bounds(ps: Seq<(i32, i32, u32, i32)>, qs: Seq<(i32, i32, u32, i32)>)
    requires
        ps.len() > 0,
        qs.len() > 0,
        forall|p: (i32, i32, u32, i32)| ps.contains(p) <==> qs.contains(p),
    ensures
        bounds_spec(ps) == bounds_spec(qs),
{
    lemma_bounds(ps);
    lemma_bounds(qs);
    lemma_bounds_attained(ps);
    lemma_bounds_attained(qs);
    let a = choose|i: int| 0 <= i < ps.len() && (#[trigger] ps[i]).0 == min_x(ps);
    let b = choose|i: int| 0 <= i < qs.len() && (#[trigger] qs[i]).0 == min_x(qs);
    assert(qs.contains(ps[a]));
    assert(ps.contains(qs[b]));
    let a = choose|i: int| 0 <= i < ps.len() && (#[trigger] ps[i]).0 == max_x(ps);
    let b = choose|i: int| 0 <= i < qs.len() && (#[trigger] qs[i]).0 == max_x(qs);
    assert(qs.contains(ps[a]));
    assert(ps.contains(qs[b]));
    let a = choose|i: int| 0 <= i < ps.len() && (#[trigger] ps[i]).1 == min_y(ps);
    let b = choose|i: int| 0 <= i < qs.len() && (#[trigger] qs[i]).1 == min_y(qs);
    assert(qs.contains(ps[a]));
    assert(ps.contains(qs[b]));
    let a = choose|i: int| 0 <= i < ps.len() && (#[trigger] ps[i]).1 == max_y(ps);
    let b = choose|i: int| 0 <= i < qs.len() && (#[trigger] qs[i]).1 == max_y(qs);
    assert(qs.contains(ps[a]));
    assert(ps.contains(qs[b]));
}

/// The batch check does not depend on the order of the pixels, nor on
/// repeats: two batches with the same pixels, checked against the capture
/// of their (common) bounds, give the same answer.
pub proof fn lemma_batch_order_free(
    ps: Seq<(i32, i32, u32, i32)>,
    qs: Seq<(i32, i32, u32, i32)>,
    mode: Seq<char>,
    region: Seq<u32>,
)
    requires
        forall|p: (i32, i32, u32, i32)| ps.contains(p) <==> qs.contains(p),
    ensures
        batch_matches(ps, mode, region) == batch_matches(qs, mode, region),
{
    if ps.len() == 0 {
        if qs.len() > 0 {
            assert(qs.contains(qs[0]));
        }
    } else if qs.len() == 0 {
        assert(ps.contains(ps[0]));
    } else {
        lemma_same_bounds(ps, qs);
        let b = bounds_spec(ps);
        if mode == "all"@ {
            if batch_matches(ps, mode, region) {
                assert forall|i: int| 0 <= i < qs.len() implies pixel_hit(#[trigger] qs[i], region, b.0, b.1, b.2) by {
                    assert(ps.contains(qs[i]));
                }
            }
            if batch_matches(qs, mode, region) {
                assert forall|i: int| 0 <= i < ps.len() implies pixel_hit(#[trigger] ps[i], region, b.0, b.1, b.2) by {
                    assert(qs.contains(ps[i]));
                }
            }
        } else {
            if batch_matches(ps, mode, region) {
                let i = choose|i: int| 0 <= i < ps.len() && pixel_hit(#[trigger] ps[i], region, b.0, b.1, b.2);
                assert(qs.contains(ps[i]));
            }
            if batch_matches(qs, mode, region) {
                let i = choose|i: int| 0 <= i < qs.len() && pixel_hit(#[trigger] qs[i], region, b.0, b.1, b.2);
                assert(ps.contains(qs[i]));
            }
        }
    }
}

/// The colour of one pixel is the one-by-one region at it: what was
/// captured there, or 0 when the capture failed or has another size.
pub proof fn lemma_pixel_color_is_region(captured: Option<(i32, i32, Seq<u32>)>)
    requires
        captured matches Some((cw, ch, rgb)) ==> (cw == 1 && ch == 1 ==> rgb.len() >= 1),
    ensures
        region_spec(1, 1, captured).len() == 1,
        region_spec(1, 1, captured)[0] == match captured {
            Some((cw, ch, rgb)) => if cw == 1 && ch == 1 {
                rgb[0]
            } else {
                0
            },
            None => 0,
        },
{
}

/// The region to capture for a batch of pixels: left, top, width, height.
pub fn pixel_bounds(pixels: &Vec<(i32, i32, u32, i32)>) -> (r: Option<(i32, i32, i32, i32)>)
    requires
        pixels@.len() > 0 ==> bounds_spec(pixels@).2 <= i32::MAX && bounds_spec(pixels@).3 <= i32::MAX,
    ensures
        pixels@.len() == 0 ==> r is None,
        pixels@.len() > 0 ==> (r matches Some(b) && b.0 == bounds_spec(pixels@).0 && b.1 == bounds_spec(
            pixels@,
        ).1 && b.2 == bounds_spec(pixels@).2 && b.3 == bounds_spec(pixels@).3),
{
    if pixels.len() == 0 {
        return None;
    }
    let ghost ps = pixels@;
    let mut lx = pixels[0].0;
    let mut ly = pixels[0].1;
    let mut hx = pixels[0].0;
    let mut hy = pixels[0].1;
    let mut i: usize = 1;
    while i < pixels.len()
        invariant
            1 <= i <= ps.len(),
            ps == pixels@,
            lx == min_x(ps.take(i as int)),
            ly == min_y(ps.take(i as int)),
            hx == max_x(ps.take(i as int)),
            hy == max_y(ps.take(i as int)),
        decreases ps.len() - i,
    {
        proof {
            assert(ps.take(i + 1).drop_last() =~= ps.take(i as int));
            assert(ps.take(i + 1).last() == ps[i as int]);
        }
        let p = pixels[i];
        if p.0 < lx {
            lx = p.0;
        }
        if p.1 < ly {
            ly = p.1;
        }
        if p.0 > hx {
            hx = p.0;
        }
        if p.1 > hy {
            hy = p.1;
        }
        i += 1;
    }
    proof {
        assert(ps.take(ps.len() as int) =~= ps);
        lemma_bounds(ps);
        assert(ps[0].0 <= hx && lx <= ps[0].0);
    }
    Some((lx, ly, hx - lx + 1, hy - ly + 1))
}

fn colour_close_exec(color: u32, target: u32, variation: i32) -> (r: bool)
    ensures
        r == colour_close(color, target, variation),
{
    let r = (color >> 16) & 0xFF;
    let g = (color >> 8) & 0xFF;
    let b = color & 0xFF;
    let tr = (target >> 16) & 0xFF;
    let tg = (target >> 8) & 0xFF;
    let tb = target & 0xFF;
    proof {
        vstd::arithmetic::power2::lemma2_to64();
        assert((color >> 16) & 0xFF == (color / 0x10000) % 256) by (bit_vector);
        assert((color >> 8) & 0xFF == (color / 0x100) % 256) by (bit_vector);
        assert(color & 0xFF == color % 256) by (bit_vector);
        assert((target >> 16) & 0xFF == (target / 0x10000) % 256) by (bit_vector);
        assert((target >> 8) & 0xFF == (target / 0x100) % 256) by (bit_vector);
        assert(target & 0xFF == target % 256) by (bit_vector);
    }
    let tol = variation as u32;
    let dr: u32 = if r >= tr {
        r - tr
    } else {
        tr - r
    };
    let dg: u32 = if g >= tg {
        g - tg
    } else {
        tg - g
    };
    let db: u32 = if b >= tb {
        b - tb
    } else {
        tb - b
    };
    dr <= tol && dg <= tol && db <= tol
}

/// The batched pixel check over a captured region: `region` holds the
/// colours of the rectangle `pixel_bounds` gives, row by row.
pub fn check_pixels_batched(pixels: &Vec<(i32, i32, u32, i32)>, match_mode: &str, region: &Vec<u32>) -> (r: bool)
    requires
        pixels@.len() > 0 ==> bounds_spec(pixels@).2 <= i32::MAX && bounds_spec(pixels@).3 <= i32::MAX,
    ensures
        r == batch_matches(pixels@, match_mode@, region@),
{
    let ghost ps = pixels@;
    let bounds = pixel_bounds(pixels);
    let (x0, y0, w, _h) = match bounds {
        Some(b) => b,
        None => {
            return false;
        },
    };
    proof {
        lemma_bounds(ps);
    }
    let any = str_eq(match_mode, "any");
    let all = str_eq(match_mode, "all");
    let ghost hitp = |k: int| pixel_hit(ps[k], region@, x0 as int, y0 as int, w as int);
    let mut all_ok = true;
    let mut some_ok = false;
    let mut i: usize = 0;
    while i < pixels.len()
        invariant
            i <= ps.len(),
            ps == pixels@,
            ps.len() > 0,
            x0 as int == bounds_spec(ps).0,
            y0 as int == bounds_spec(ps).1,
            w as int == bounds_spec(ps).2,
            forall|k: int| 0 <= k < ps.len() ==> min_x(ps) <= (#[trigger] ps[k]).0 <= max_x(ps) && min_y(ps) <= ps[k].1 <= max_y(ps),
            any == (match_mode@ == "any"@),
            hitp == (|k: int| pixel_hit(ps[k], region@, x0 as int, y0 as int, w as int)),
            all_ok == (forall|k: int| 0 <= k < i ==> #[trigger] hitp(k)),
            some_ok == (exists|k: int| 0 <= k < i && #[trigger] hitp(k)),
            any ==> !some_ok,
        decreases ps.len() - i,
    {
        let p = pixels[i];
        let dx: i128 = p.0 as i128 - x0 as i128;
        let dy: i128 = p.1 as i128 - y0 as i128;
        proof {
            assert(0 <= dx <= w);
            assert(0 <= dy <= 0x1_0000_0000);
            assert(dy * (w as i128) <= 0x1_0000_0000 * 0x8000_0000) by (nonlinear_arith)
                requires
                    0 <= dy <= 0x1_0000_0000,
                    0 <= w <= i32::MAX;
            assert(dy * (w as i128) >= 0) by (nonlinear_arith)
                requires
                    0 <= dy,
                    0 <= w;
        }
        let idx: i128 = dy * (w as i128) + dx;
        let hit = if idx < region.len() as i128 {
            colour_close_exec(region[idx as usize], p.2, p.3)
        } else {
            false
        };
        proof {
            assert(hit == hitp(i as int));
        }
        if hit {
            if any {
                proof {
                    assert(hitp(i as int));
                    assert(pixel_hit(ps[i as int], region@, x0 as int, y0 as int, w as int));
                    reveal_strlit("any");
                    reveal_strlit("all");
                    assert("any"@[1] == 'n' && "all"@[1] == 'l');
                    assert(match_mode@ != "all"@);
                }
                return true;
            }
            some_ok = true;
        } else {
            all_ok = false;
        }
        proof {
            if hit {
                assert(hitp(i as int));
            } else {
                assert(!hitp(i as int));
            }
        }
        i += 1;
    }
    proof {
        assert(forall|k: int| 0 <= k < ps.len() ==> hitp(k) == pixel_hit(#[trigger] ps[k], region@, x0 as int, y0 as int, w as int));
    }
    if all {
        all_ok
    } else {
        some_ok
    }
}

// ── Captured regions ────────────────────────────────────────────────────

/// The colour `0xRRGGBB` of red, green and blue bytes.
pub open spec fn rgb_of(r: u8, g: u8, b: u8) -> u32 {
    ((r as int) * 65536 + (g as int) * 256 + (b as int)) as u32
}

/// The `n` colours of an RGBA byte buffer, alpha dropped.
pub open spec fn colours_of_rgba(raw: Seq<u8>, n: nat) -> Seq<u32> {
    Seq::new(n, |i: int| rgb_of(raw[4 * i], raw[4 * i + 1], raw[4 * i + 2]))
}

/// What the `image` crate decodes a byte buffer into: width, height and the
/// RGBA bytes of `ImageReader::with_guessed_format().decode()` converted
/// with `to_rgba8`; `None` when the format is not recognised or decoding
/// fails.
pub uninterp spec fn png_rgba(data: Seq<u8>) -> Option<(u32, u32, Seq<u8>)>;

/// Decode an image with the `image` crate (`ImageReader::new`,
/// `with_guessed_format`, `decode`, then `to_rgba8` and `into_raw`).
/// Claims that the result is the crate's decoding of `data`, and that the
/// buffer holds at least four bytes per pixel, as `ImageBuffer` guarantees
/// of every buffer it is built on.
#[verifier::external_body]
fn decode_rgba(data: &[u8]) -> (r: Option<(u32, u32, Vec<u8>)>)
    ensures
        match r {
            Some((w, h, raw)) => png_rgba(data@) == Some((w, h, raw@)) && raw@.len() >= 4 * (w as int) * (h as int),
            None => png_rgba(data@) is None,
        },
{
    let img = image::ImageReader::new(std::io::Cursor::new(data)).with_guessed_format().ok()?.decode().ok()?;
    let rgba = img.to_rgba8();
    Some((rgba.width(), rgba.height(), rgba.into_raw()))
}

/// Decode a PNG into its width, height and `0xRRGGBB` colours, row by row.
pub fn decode_png(data: &[u8]) -> (r: Option<(i32, i32, Vec<u32>)>)
    ensures
        match png_rgba(data@) {
            Some((w, h, raw)) => r matches Some((rw, rh, rgb)) && rw == w as i32 && rh == h as i32
                && rgb@ == colours_of_rgba(raw, (w as int * h as int) as nat),
            None => r is None,
        },
{
    let (w, h, raw) = match decode_rgba(data) {
        Some(x) => x,
        None => {
            return None;
        },
    };
    let len = raw.len();
    proof {
        assert(0 <= (w as int) * (h as int) <= len && 4 * ((w as int) * (h as int)) <= len) by (nonlinear_arith)
            requires
                w >= 0,
                h >= 0,
                len >= 4 * (w as int) * (h as int);
    }
    let count: usize = (w as usize) * (h as usize);
    let mut rgb: Vec<u32> = Vec::new();
    let mut i: usize = 0;
    while i < count
        invariant
            i <= count,
            count == (w as int) * (h as int),
            raw@.len() >= 4 * count,
            raw@.len() <= usize::MAX,
            rgb@ == colours_of_rgba(raw@, i as nat),
        decreases count - i,
    {
        let r = raw[4 * i];
        let g = raw[4 * i + 1];
        let b = raw[4 * i + 2];
        let c: u32 = ((r as u32) << 16) | ((g as u32) << 8) | (b as u32);
        proof {
            assert(((r as u32) << 16) | ((g as u32) << 8) | (b as u32) == (r as u32) * 65536 + (g as u32) * 256 + (b as u32)) by (bit_vector)
                requires
                    r < 256,
                    g < 256,
                    b < 256;
        }
        rgb.push(c);
        proof {
            assert(rgb@ =~= colours_of_rgba(raw@, (i + 1) as nat));
        }
        i += 1;
    }
    Some((w as i32, h as i32, rgb))
}

/// The colour at the top-left of a captured region; 0 when nothing was
/// captured.
pub fn get_pixel_color(region: &Vec<u32>) -> (r: u32)
    ensures
        r == if region@.len() > 0 {
            region@[0]
        } else {
            0
        },
{
    if region.len() > 0 {
        region[0]
    } else {
        0
    }
}

/// The colours of a `w`×`h` region: the capture's colours when the capture
/// has exactly that size, otherwise all zeros.
pub open spec fn region_spec(w: i32, h: i32, captured: Option<(i32, i32, Seq<u32>)>) -> Seq<u32> {
    let count = (if w < 0 {
        0
    } else {
        w as int
    }) * (if h < 0 {
        0
    } else {
        h as int
    });
    match captured {
        Some((cw, ch, rgb)) => if w > 0 && h > 0 && cw == w && ch == h {
            rgb.take(count)
        } else {
            Seq::new(count as nat, |i: int| 0u32)
        },
        None => Seq::new(count as nat, |i: int| 0u32),
    }
}

pub open spec fn captured_view(c: Option<(i32, i32, Vec<u32>)>) -> Option<(i32, i32, Seq<u32>)> {
    match c {
        Some((w, h, v)) => Some((w, h, v@)),
        None => None,
    }
}

pub fn get_pixels_region(w: i32, h: i32, captured: Option<(i32, i32, Vec<u32>)>) -> (r: Vec<u32>)
    requires
        w > 0 && h > 0 ==> (w as int) * (h as int) <= i32::MAX,
        match captured {
            Some((cw, ch, rgb)) => (cw == w && ch == h && w > 0 && h > 0) ==> rgb@.len() >= (w as int) * (
            h as int),
            None => true,
        },
    ensures
        r@ == region_spec(w, h, captured_view(captured)),
{
    let ww: i32 = if w < 0 {
        0
    } else {
        w
    };
    let hh: i32 = if h < 0 {
        0
    } else {
        h
    };
    proof {
        assert(0 <= (ww as int) * (hh as int) <= i32::MAX) by (nonlinear_arith)
            requires
                ww >= 0,
                hh >= 0,
                ww > 0 && hh > 0 ==> (ww as int) * (hh as int) <= i32::MAX;
    }
    let count: usize = (ww * hh) as usize;
    let copy = match &captured {
        Some((cw, ch, _)) => w > 0 && h > 0 && *cw == w && *ch == h,
        None => false,
    };
    let mut out: Vec<u32> = Vec::new();
    let mut i: usize = 0;
    while i < count
        invariant
            i <= count,
            count == (ww as int) * (hh as int),
            copy ==> (captured matches Some((cw, ch, rgb)) && rgb@.len() >= count),
            copy == (captured matches Some((cw, ch, rgb)) && w > 0 && h > 0 && cw == w && ch == h),
            out@.len() == i,
            forall|k: int| 0 <= k < i ==> #[trigger] out@[k] == if copy {
                match captured {
                    Some((_, _, rgb)) => rgb@[k],
                    None => 0u32,
                }
            } else {
                0u32
            },
        decreases count - i,
    {
        let v = if copy {
            match &captured {
                Some((_, _, rgb)) => rgb[i],
                None => 0,
            }
        } else {
            0
        };
        out.push(v);
        i += 1;
    }
    proof {
        assert(out@ =~= region_spec(w, h, captured_view(captured)));
    }
    out
}

/// The BGRA bytes of `n` colours: blue, green, red, then opaque alpha.
pub open spec fn bgra_of(rgb: Seq<u32>, n: nat) -> Seq<u8> {
    Seq::new(
        4 * n,
        |j: int|
            {
                let c = rgb[j / 4];
                let k = j % 4;
                if k == 0 {
                    (c % 256) as u8
                } else if k == 1 {
                    ((c / 256) % 256) as u8
                } else if k == 2 {
                    ((c / 65536) % 256) as u8
                } else {
                    255u8
                }
            },
    )
}

/// A screen capture turned into BGRA bytes.
pub fn capture_screen_bgra(captured: Option<(i32, i32, Vec<u32>)>) -> (r: Option<(i32, i32, Vec<u8>)>)
    requires
        captured matches Some((w, h, rgb)) ==> w >= 0 && h >= 0 && (w as int) * (h as int) * 4 <= i32::MAX
            && rgb@.len() >= (w as int) * (h as int),
    ensures
        match captured {
            Some((w, h, rgb)) => r matches Some((rw, rh, bytes)) && rw == w && rh == h && bytes@ == bgra_of(
                rgb@,
                ((w as int) * (h as int)) as nat,
            ),
            None => r is None,
        },
{
    let (w, h, rgb) = match captured {
        Some(c) => c,
        None => {
            return None;
        },
    };
    proof {
        assert(0 <= (w as int) * (h as int)) by (nonlinear_arith)
            requires
                w >= 0,
                h >= 0;
    }
    let n: usize = (w * h) as usize;
    let mut bgra: Vec<u8> = Vec::new();
    let mut i: usize = 0;
    while i < n
        invariant
            i <= n,
            n == (w as int) * (h as int),
            n * 4 <= i32::MAX,
            rgb@.len() >= n,
            bgra@ == bgra_of(rgb@, i as nat),
        decreases n - i,
    {
        let c = rgb[i];
        proof {
            assert(c & 0xFF == c % 256) by (bit_vector);
            assert((c >> 8) & 0xFF == (c / 256) % 256) by (bit_vector);
            assert((c >> 16) & 0xFF == (c / 65536) % 256) by (bit_vector);
        }
        bgra.push((c & 0xFF) as u8);
        bgra.push(((c >> 8) & 0xFF) as u8);
        bgra.push(((c >> 16) & 0xFF) as u8);
        bgra.push(0xFF);
        proof {
            assert forall|j: int| 0 <= j < 4 * (i + 1) implies #[trigger] bgra@[j] == bgra_of(rgb@, (i + 1) as nat)[j] by {
                if j < 4 * i {
                    assert(bgra_of(rgb@, i as nat)[j] == bgra_of(rgb@, (i + 1) as nat)[j]);
                } else {
                    assert(j / 4 == i) by (nonlinear_arith)
                        requires
                            4 * i <= j < 4 * i + 4;
                    assert(j % 4 == j - 4 * i) by (nonlinear_arith)
                        requires
                            4 * i <= j < 4 * i + 4;
                }
            }
            assert(bgra@ =~= bgra_of(rgb@, (i + 1) as nat));
        }
        i += 1;
    }
    Some((w, h, bgra))
}

} // verus!
