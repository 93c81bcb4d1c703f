//! The size of the image that a diagram is rendered to.
use resvg::tiny_skia::IntSize;
use vstd::prelude::*;

verus! {

/// What `IntSize::scale_to_width` of the crate `tiny-skia-path` gives for a
/// size of `width` by `height` and the new width `new_width`.
pub uninterp spec fn scaled_to_width(width: u32, height: u32, new_width: u32) -> Option<(u32, u32)>;

/// What `IntSize::scale_to_height` of the crate `tiny-skia-path` gives for
/// a size of `width` by `height` and the new height `new_height`.
pub uninterp spec fn scaled_to_height(width: u32, height: u32, new_height: u32) -> Option<
    (u32, u32),
>;

/// What `IntSize::scale_to` of the crate `tiny-skia-path` gives for a size
/// of `width` by `height` and the size `to_width` by `to_height`.
pub uninterp spec fn scaled_to(width: u32, height: u32, to_width: u32, to_height: u32) -> (u32, u32);

/// A size scaled to a width, keeping its proportions.
///
/// Trusted: this is `IntSize::scale_to_width`, which computes the new
/// height from the three numbers alone, in floating point and rounded up.
/// It gives a size of the new width, or nothing where the new width or
/// the new height is zero. `IntSize::from_wh` gives a size for every width
/// and height that are not zero.
#[verifier::external_body]
fn scale_to_width(width: u32, height: u32, new_width: u32) -> (r: Option<(u32, u32)>)
    requires
        width > 0,
        height > 0,
    ensures
        r == scaled_to_width(width, height, new_width),
        r matches Some(s) ==> s.0 == new_width && s.0 > 0 && s.1 > 0,
        new_width == 0 ==> r is None,
{
    let size = IntSize::from_wh(width, height).unwrap();
    size.scale_to_width(new_width).map(|s| (s.width(), s.height()))
}

/// A size scaled to a height, keeping its proportions.
///
/// Trusted: this is `IntSize::scale_to_height`, which computes the new
/// width from the three numbers alone, in floating point and rounded up.
/// It gives a size of the new height, or nothing where the new height or
/// the new width is zero.
#[verifier::external_body]
fn scale_to_height(width: u32, height: u32, new_height: u32) -> (r: Option<(u32, u32)>)
    requires
        width > 0,
        height > 0,
    ensures
        r == scaled_to_height(width, height, new_height),
        r matches Some(s) ==> s.1 == new_height && s.0 > 0 && s.1 > 0,
        new_height == 0 ==> r is None,
{
    let size = IntSize::from_wh(width, height).unwrap();
    size.scale_to_height(new_height).map(|s| (s.width(), s.height()))
}

/// A size scaled into another size, keeping its proportions.
///
/// Trusted: this is `IntSize::scale_to`, which computes the result from
/// the four numbers alone, in floating point and rounded up. The result
/// has the width or the height of the other size, and is no wider.
#[verifier::external_body]
fn scale_to(width: u32, height: u32, to_width: u32, to_height: u32) -> (r: (u32, u32))
    requires
        width > 0,
        height > 0,
        to_width > 0,
        to_height > 0,
    ensures
        r == scaled_to(width, height, to_width, to_height),
        0 < r.0 <= to_width,
        0 < r.1,
        r.0 == to_width || r.1 == to_height,
{
    let size = IntSize::from_wh(width, height).unwrap();
    let scaled = size.scale_to(IntSize::from_wh(to_width, to_height).unwrap());
    (scaled.width(), scaled.height())
}

/// Scales the final image, preserving aspect-ratio
#[derive(Debug, PartialEq, Eq, Structural, PartialOrd, Ord, Clone, Copy)]
pub enum FitTo {
    /// Maximum width in pixels, scaling height as necessary
    MaxWidth(u32),
    /// Maximum hight in pixels, scaling width as necessary
    MaxHeight(u32),
    /// Miximum height and width in pixels, scaling as necessary
    MaxSize { width: u32, height: u32 },
}

impl FitTo {
    /// The policy for the given limits: the limit that is given, both
    /// where both are given, and 1024 by 1024 where none is.
    pub open spec fn of_size(width: Option<u32>, height: Option<u32>) -> FitTo {
        match (width, height) {
            (Some(width), None) => FitTo::MaxWidth(width),
            (Some(width), Some(height)) => FitTo::MaxSize { width, height },
            (None, Some(height)) => FitTo::MaxHeight(height),
            (None, None) => FitTo::MaxSize { width: 1024, height: 1024 },
        }
    }

    pub fn from_size(width: Option<u32>, height: Option<u32>) -> (f: Self)
        ensures
            f == Self::of_size(width, height),
    {
        match (width, height) {
            (Some(width), None) => Self::MaxWidth(width),
            (Some(width), Some(height)) => Self::MaxSize { width, height },
            (None, Some(height)) => Self::MaxHeight(height),
            (None, None) => Self::default(),
        }
    }

    /// The size of the image for a diagram of the given size: the size
    /// scaled to the width, to the height or into the size that the
    /// policy names, and nothing where that is zero.
    pub open spec fn fitted(self, width: u32, height: u32) -> Option<(u32, u32)> {
        match self {
            FitTo::MaxWidth(w) => scaled_to_width(width, height, w),
            FitTo::MaxHeight(h) => scaled_to_height(width, height, h),
            FitTo::MaxSize { width: w, height: h } => if w == 0 || h == 0 {
                None
            } else {
                Some(scaled_to(width, height, w, h))
            },
        }
    }

    /// The size of the image for a diagram of the given size, neither of
    /// which may be zero.
    pub fn fit_to_size(&self, width: u32, height: u32) -> (r: Option<(u32, u32)>)
        requires
            width > 0,
            height > 0,
        ensures
            r == self.fitted(width, height),
            r matches Some(s) ==> s.0 > 0 && s.1 > 0,
            r is None <==> self.fitted(width, height) is None,
            *self matches FitTo::MaxWidth(w) ==> (r matches Some(s) ==> s.0 == w),
            *self matches FitTo::MaxHeight(h) ==> (r matches Some(s) ==> s.1 == h),
            *self matches FitTo::MaxSize { width: w, height: h } ==> (r is Some <==> w > 0 && h > 0)
                && (r matches Some(s) ==> s.0 <= w && (s.0 == w || s.1 == h)),
    {
        match self {
            Self::MaxWidth(w) => scale_to_width(width, height, *w),
            Self::MaxHeight(h) => scale_to_height(width, height, *h),
            Self::MaxSize { width: w, height: h } => {
                if *w == 0 || *h == 0 {
                    None
                } else {
                    Some(scale_to(width, height, *w, *h))
                }
            },
        }
    }
}

impl Default for FitTo {
    fn default() -> (f: Self)
        ensures
            f == (FitTo::MaxSize { width: 1024, height: 1024 }),
    {
        Self::MaxSize { width: 1024, height: 1024 }
    }
}

} // verus!
