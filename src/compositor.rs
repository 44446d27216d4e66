//! Alpha compositing of glyph coverage into a packed `0xRRGGBB` pixel
//! buffer. Coverage is fixed point: `ALPHA_ONE` stands for full coverage.
use vstd::prelude::*;

verus! {

/// Full coverage.
pub const ALPHA_ONE: u32 = 256;

pub open spec fn red(c: int) -> int {
    (c / 0x10000) % 0x100
}

pub open spec fn green(c: int) -> int {
    (c / 0x100) % 0x100
}

pub open spec fn blue(c: int) -> int {
    c % 0x100
}

/// One channel of `alpha * f + (1 - alpha) * b`, truncated.
pub open spec fn mix(b: int, f: int, alpha: int) -> int {
    (f * alpha + b * (ALPHA_ONE - alpha)) / ALPHA_ONE as int
}

/// Straight alpha blend of `fg` over `bg`, channel by channel; the top
/// byte of either colour is ignored.
pub open spec fn blend_spec(bg: int, fg: int, alpha: int) -> int {
    mix(red(bg), red(fg), alpha) * 0x10000 + mix(green(bg), green(fg), alpha) * 0x100 + mix(
        blue(bg),
        blue(fg),
        alpha,
    )
}

proof fn lemma_mix_bounds(b: int, f: int, alpha: int)
    requires
        0 <= b <= 255,
        0 <= f <= 255,
        0 <= alpha <= ALPHA_ONE,
    ensures
        0 <= f * alpha + b * (ALPHA_ONE - alpha) <= 255 * ALPHA_ONE,
        0 <= mix(b, f, alpha) <= 255,
{
    assert(0 <= f * alpha + b * (ALPHA_ONE - alpha) <= 255 * ALPHA_ONE) by (nonlinear_arith)
        requires 0 <= b <= 255, 0 <= f <= 255, 0 <= alpha <= ALPHA_ONE;
    vstd::arithmetic::div_mod::lemma_div_is_ordered(
        f * alpha + b * (ALPHA_ONE - alpha),
        255 * ALPHA_ONE,
        ALPHA_ONE as int,
    );
    vstd::arithmetic::div_mod::lemma_div_pos_is_pos(f * alpha + b * (ALPHA_ONE - alpha), ALPHA_ONE as int);
}

fn mix_channel(b: u32, f: u32, alpha: u32) -> (r: u32)
    requires
        b <= 255,
        f <= 255,
        alpha <= ALPHA_ONE,
    ensures
        r == mix(b as int, f as int, alpha as int),
        r <= 255,
{
    proof {
        lemma_mix_bounds(b as int, f as int, alpha as int);
    }
    (f * alpha + b * (ALPHA_ONE - alpha)) / ALPHA_ONE
}

/// Blends `fg` over `bg` with coverage `alpha` out of `ALPHA_ONE`.
pub fn blend(bg: u32, fg: u32, alpha: u32) -> (r: u32)
    requires
        alpha <= ALPHA_ONE,
    ensures
        r == blend_spec(bg as int, fg as int, alpha as int),
        r < 0x100_0000,
{
    let bg_r = (bg >> 16u32) & 0xffu32;
    let bg_g = (bg >> 8u32) & 0xffu32;
    let bg_b = bg & 0xffu32;
    let fg_r = (fg >> 16u32) & 0xffu32;
    let fg_g = (fg >> 8u32) & 0xffu32;
    let fg_b = fg & 0xffu32;
    assert(bg_r == (bg / 0x10000u32) % 0x100u32 && bg_g == (bg / 0x100u32) % 0x100u32 && bg_b
        == bg % 0x100u32) by (bit_vector)
        requires
            bg_r == (bg >> 16u32) & 0xffu32,
            bg_g == (bg >> 8u32) & 0xffu32,
            bg_b == bg & 0xffu32,
    ;
    assert(fg_r == (fg / 0x10000u32) % 0x100u32 && fg_g == (fg / 0x100u32) % 0x100u32 && fg_b
        == fg % 0x100u32) by (bit_vector)
        requires
            fg_r == (fg >> 16u32) & 0xffu32,
            fg_g == (fg >> 8u32) & 0xffu32,
            fg_b == fg & 0xffu32,
    ;
    let r = mix_channel(bg_r, fg_r, alpha);
    let g = mix_channel(bg_g, fg_g, alpha);
    let b = mix_channel(bg_b, fg_b, alpha);
    assert((r << 16u32) | (g << 8u32) | b == r * 0x10000 + g * 0x100 + b) by (bit_vector)
        requires
            r <= 255,
            g <= 255,
            b <= 255,
    ;
    (r << 16u32) | (g << 8u32) | b
}

proof fn lemma_channels_rebuild(c: int)
    requires
        0 <= c < 0x100_0000,
    ensures
        red(c) * 0x10000 + green(c) * 0x100 + blue(c) == c,
{
    vstd::arithmetic::div_mod::lemma_fundamental_div_mod(c, 0x10000);
    vstd::arithmetic::div_mod::lemma_mod_breakdown(c, 0x100, 0x100);
    vstd::arithmetic::div_mod::lemma_div_is_ordered(c, 0xff_ffff, 0x10000);
    vstd::arithmetic::div_mod::lemma_div_pos_is_pos(c, 0x10000);
    vstd::arithmetic::div_mod::lemma_small_mod((c / 0x10000) as nat, 0x100);
}

/// On 24-bit colours: blending at full coverage gives the foreground, so
/// blending the same foreground twice at full coverage gives it too, and
/// blending at zero coverage leaves the background as it was.
pub proof fn lemma_blend_extremes(bg: int, fg: int)
    requires
        0 <= bg < 0x100_0000,
        0 <= fg < 0x100_0000,
    ensures
        blend_spec(bg, fg, ALPHA_ONE as int) == fg,
        blend_spec(blend_spec(bg, fg, ALPHA_ONE as int), fg, ALPHA_ONE as int) == fg,
        blend_spec(bg, fg, 0) == bg,
{
    lemma_channels_rebuild(bg);
    lemma_channels_rebuild(fg);
    assert forall|b: int, f: int| mix(b, f, ALPHA_ONE as int) == f && mix(b, f, 0) == b by {
        vstd::arithmetic::div_mod::lemma_div_multiples_vanish(f, ALPHA_ONE as int);
        vstd::arithmetic::div_mod::lemma_div_multiples_vanish(b, ALPHA_ONE as int);
        assert(f * ALPHA_ONE + b * (ALPHA_ONE - ALPHA_ONE) == ALPHA_ONE * f) by (nonlinear_arith);
        assert(f * 0 + b * (ALPHA_ONE - 0) == ALPHA_ONE * b) by (nonlinear_arith);
    }
}

/// One covered pixel of rasterized text: buffer coordinates and coverage.
#[derive(Clone, Copy, Debug, PartialEq, Eq)]
pub struct Coverage {
    pub x: i64,
    pub y: i64,
    pub alpha: u32,
}

/// The sample lies on a `width` x `height` buffer.
pub open spec fn on_buffer(s: Coverage, width: int, height: int) -> bool {
    0 <= s.x < width && 0 <= s.y < height
}

/// The buffer after blending `color` at one sample; samples off the buffer
/// leave it as it is.
pub open spec fn apply_sample(buf: Seq<u32>, width: int, height: int, s: Coverage, color: u32) -> Seq<u32> {
    if on_buffer(s, width, height) {
        let i = s.y * width + s.x;
        buf.update(i, blend_spec(buf[i] as int, color as int, s.alpha as int) as u32)
    } else {
        buf
    }
}

/// The buffer after blending `color` at each sample in turn.
pub open spec fn composite_spec(
    buf: Seq<u32>,
    width: int,
    height: int,
    samples: Seq<Coverage>,
    color: u32,
) -> Seq<u32>
    decreases samples.len(),
{
    if samples.len() == 0 {
        buf
    } else {
        apply_sample(
            composite_spec(buf, width, height, samples.drop_last(), color),
            width,
            height,
            samples.last(),
            color,
        )
    }
}

pub open spec fn alphas_valid(samples: Seq<Coverage>) -> bool {
    forall|i: int| 0 <= i < samples.len() ==> #[trigger] samples[i].alpha <= ALPHA_ONE
}

/// Blends `color` into a row-major `width` x `height` buffer at every
/// coverage sample, in order; samples off the buffer are skipped.
pub fn composite(buffer: &mut Vec<u32>, width: usize, height: usize, samples: &Vec<Coverage>, color: u32)
    requires
        old(buffer)@.len() == width * height,
        alphas_valid(samples@),
    ensures
        final(buffer)@ == composite_spec(old(buffer)@, width as int, height as int, samples@, color),
{
    let ghost start = buffer@;
    let mut i: usize = 0;
    while i < samples.len()
        invariant
            i <= samples@.len(),
            buffer@.len() == width * height,
            alphas_valid(samples@),
            buffer@ == composite_spec(start, width as int, height as int, samples@.take(i as int), color),
        decreases samples@.len() - i,
    {
        let s = samples[i];
        assert(samples@.take(i + 1).drop_last() =~= samples@.take(i as int));
        assert(samples@.take(i + 1).last() == s);
        if s.x >= 0 && s.y >= 0 && (s.x as u64) < (width as u64) && (s.y as u64) < (height as u64) {
            let x = s.x as usize;
            let y = s.y as usize;
            let n = buffer.len();
            assert(y * width + x < n) by (nonlinear_arith)
                requires x < width, y < height, n == width * height;
            assert(y * width <= y * width + x);
            let idx = y * width + x;
            let v = blend(buffer[idx], color, s.alpha);
            buffer.set(idx, v);
        }
        i += 1;
    }
    assert(samples@.take(samples@.len() as int) =~= samples@);
}

} // verus!
