//! Target frame size from a source size and a sizing policy.
use vstd::prelude::*;

verus! {

/// The axis that a fixed-aspect policy pins.
#[derive(Debug, Clone, Copy, PartialEq, Eq, Structural)]
pub enum Dimension {
    Width,
    Height,
}

/// How a source frame size is turned into a target size.
#[derive(Debug, Clone, Copy, PartialEq, Eq, Structural)]
pub enum ResolutionHint {
    /// Keep the source aspect ratio and pin one axis to `size`.
    FixedAspect { dimension: Dimension, size: u32 },
    /// Force the given size.
    FixedResolution { width: u32, height: u32 },
    /// The largest size within `width * height` whose aspect ratio is the source's times the
    /// pixel aspect `aspect_num / aspect_den`.
    Fit { width: u32, height: u32, aspect_num: u32, aspect_den: u32 },
}

/// `p / q` rounded to the nearest integer, halves up.
pub open spec fn round_div(p: int, q: int) -> int {
    (2 * p + q) / (2 * q)
}

/// The target size for a `w0 * h0` source.
pub open spec fn target_res(hint: ResolutionHint, w0: int, h0: int) -> (int, int) {
    match hint {
        ResolutionHint::FixedAspect { dimension: Dimension::Width, size } => (
            size as int,
            round_div(size * h0, w0),
        ),
        ResolutionHint::FixedAspect { dimension: Dimension::Height, size } => (
            round_div(size * w0, h0),
            size as int,
        ),
        ResolutionHint::FixedResolution { width, height } => (width as int, height as int),
        ResolutionHint::Fit { width, height, aspect_num, aspect_den } => {
            if width * h0 * aspect_den <= height * w0 * aspect_num {
                (width as int, round_div(width * h0 * aspect_den, w0 * aspect_num))
            } else {
                (round_div(height * w0 * aspect_num, h0 * aspect_den), height as int)
            }
        },
    }
}

/// `a * b * c` as a 128-bit integer.
fn mul3(a: u32, b: u32, c: u32) -> (r: u128)
    ensures
        r == a * b * c,
        0 <= r <= u32::MAX * u32::MAX * u32::MAX,
        c == 1 ==> r <= u32::MAX * u32::MAX,
{
    assert(a * b * 1 == a * b);
    assert(a * b <= u32::MAX * u32::MAX) by (nonlinear_arith)
        requires
            a <= u32::MAX,
            b <= u32::MAX,
    ;
    assert(a * b * c <= u32::MAX * u32::MAX * u32::MAX) by (nonlinear_arith)
        requires
            0 <= a * b <= u32::MAX * u32::MAX,
            c <= u32::MAX,
    ;
    assert(0 <= a * b) by (nonlinear_arith);
    assert(0 <= a * b * c) by (nonlinear_arith)
        requires
            0 <= a * b,
            0 <= c,
    ;
    (a as u128) * (b as u128) * (c as u128)
}

/// `p / q` rounded to the nearest integer, halves up.
fn round_div_u128(p: u128, q: u128) -> (r: u128)
    requires
        q > 0,
        p <= u32::MAX * u32::MAX * u32::MAX,
        q <= u32::MAX * u32::MAX,
    ensures
        r == round_div(p as int, q as int),
{
    (2 * p + q) / (2 * q)
}

/// Rounding a quotient that is at most `bound` stays at most `bound`.
proof fn lemma_round_div_le(p: int, q: int, bound: int)
    requires
        0 <= p <= bound * q,
        q > 0,
        bound >= 0,
    ensures
        0 <= round_div(p, q) <= bound,
{
    assert(2 * bound * q == 2 * (bound * q)) by (nonlinear_arith);
    assert(bound * (2 * q) == 2 * bound * q) by (nonlinear_arith);
    vstd::arithmetic::div_mod::lemma_div_is_ordered(2 * p + q, 2 * bound * q + q, 2 * q);
    vstd::arithmetic::div_mod::lemma_fundamental_div_mod_converse(
        2 * bound * q + q,
        2 * q,
        bound,
        q,
    );
    vstd::arithmetic::div_mod::lemma_div_is_ordered(0, 2 * p + q, 2 * q);
}

/// A fit lands within its bounds, whatever the source size.
pub proof fn lemma_fit_within(hint: ResolutionHint, w0: int, h0: int)
    requires
        hint.wf(),
        hint is Fit,
        w0 > 0,
        h0 > 0,
    ensures
        0 <= target_res(hint, w0, h0).0 <= hint->Fit_width,
        0 <= target_res(hint, w0, h0).1 <= hint->Fit_height,
{
    let (width, height, num, den) = (hint->Fit_width as int, hint->Fit_height as int, hint->Fit_aspect_num as int, hint->Fit_aspect_den as int);
    assert(w0 * num > 0 && h0 * den > 0) by (nonlinear_arith)
        requires
            w0 > 0,
            h0 > 0,
            num > 0,
            den > 0,
    ;
    assert(width * h0 * den >= 0 && height * w0 * num >= 0) by (nonlinear_arith)
        requires
            w0 > 0,
            h0 > 0,
            num > 0,
            den > 0,
            width >= 0,
            height >= 0,
    ;
    assert(height * w0 * num == height * (w0 * num)) by (nonlinear_arith);
    assert(width * h0 * den == width * (h0 * den)) by (nonlinear_arith);
    if width * h0 * den <= height * w0 * num {
        lemma_round_div_le(width * h0 * den, w0 * num, height);
    } else {
        lemma_round_div_le(height * w0 * num, h0 * den, width);
    }
}

impl ResolutionHint {
    /// Positive pixel aspect for a fit.
    pub open spec fn wf(&self) -> bool {
        match *self {
            ResolutionHint::Fit { aspect_num, aspect_den, .. } => aspect_num > 0 && aspect_den > 0,
            _ => true,
        }
    }

    pub fn fixed_aspect(dimension: Dimension, size: u32) -> (r: Self)
        ensures
            r == (ResolutionHint::FixedAspect { dimension, size }),
    {
        ResolutionHint::FixedAspect { dimension, size }
    }

    pub fn fixed_resolution(width: u32, height: u32) -> (r: Self)
        ensures
            r == (ResolutionHint::FixedResolution { width, height }),
    {
        ResolutionHint::FixedResolution { width, height }
    }

    /// Fit within `width * height`, with pixels `aspect_num / aspect_den` as wide as tall.
    pub fn fit(width: u32, height: u32, aspect_num: u32, aspect_den: u32) -> (r: Self)
        ensures
            r == (ResolutionHint::Fit { width, height, aspect_num, aspect_den }),
    {
        ResolutionHint::Fit { width, height, aspect_num, aspect_den }
    }

    /// The target size for an `source_width * source_height` source.
    pub fn get_target_res(&self, source_width: u32, source_height: u32) -> (r: (u32, u32))
        requires
            self.wf(),
            source_width > 0,
            source_height > 0,
            target_res(*self, source_width as int, source_height as int).0 <= u32::MAX,
            target_res(*self, source_width as int, source_height as int).1 <= u32::MAX,
        ensures
            (r.0 as int, r.1 as int) == target_res(*self, source_width as int, source_height as int),
    {
        match *self {
            ResolutionHint::FixedAspect { dimension: Dimension::Width, size } => {
                let h = round_div_u128(mul3(size, source_height, 1), source_width as u128);
                (size, h as u32)
            },
            ResolutionHint::FixedAspect { dimension: Dimension::Height, size } => {
                let w = round_div_u128(mul3(size, source_width, 1), source_height as u128);
                (w as u32, size)
            },
            ResolutionHint::FixedResolution { width, height } => (width, height),
            ResolutionHint::Fit { width, height, aspect_num, aspect_den } => {
                let r = mul3(source_width, aspect_num, 1);
                let s = mul3(source_height, aspect_den, 1);
                proof {
                    assert(r > 0 && s > 0) by (nonlinear_arith)
                        requires
                            r == source_width * aspect_num,
                            s == source_height * aspect_den,
                            source_width > 0,
                            source_height > 0,
                            aspect_num > 0,
                            aspect_den > 0,
                    ;
                }
                if mul3(width, source_height, aspect_den) <= mul3(height, source_width, aspect_num) {
                    let h = round_div_u128(mul3(width, source_height, aspect_den), r);
                    (width, h as u32)
                } else {
                    let w = round_div_u128(mul3(height, source_width, aspect_num), s);
                    (w as u32, height)
                }
            },
        }
    }
}

} // verus!
