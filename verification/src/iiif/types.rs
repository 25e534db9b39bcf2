//! The typed form of an image request.

use crate::number::{Decimal, Number};
use vstd::prelude::*;

verus! {

/// The colour treatment asked for.
#[derive(Clone, Copy, Debug, PartialEq, Eq, Structural)]
pub enum Quality {
    Default,
    Color,
    Gray,
    Bitonal,
}

/// The output format asked for.
#[derive(Clone, Copy, Debug, PartialEq, Eq, Structural)]
pub enum Format {
    Jpg,
    Png,
    Tif,
    Webp,
    Gif,
    Pdf,
}

/// The part of the source image to take.
#[derive(Debug, Clone)]
pub enum Region {
    /// The whole image.
    Full,
    /// The centred square whose side is the shorter side of the image.
    Square,
    /// `x, y, w, h` in pixels.
    Absolute(Number, Number, Number, Number),
    /// `x, y, w, h` in hundredths of the image's width and height.
    Percentage(Number, Number, Number, Number),
}

/// What a [`Region`] says, with its numbers as values.
pub enum RegionView {
    Full,
    Square,
    Absolute(Decimal, Decimal, Decimal, Decimal),
    Percentage(Decimal, Decimal, Decimal, Decimal),
}

impl View for Region {
    type V = RegionView;

    open spec fn view(&self) -> RegionView {
        match self {
            Region::Full => RegionView::Full,
            Region::Square => RegionView::Square,
            Region::Absolute(x, y, w, h) => RegionView::Absolute(x@, y@, w@, h@),
            Region::Percentage(x, y, w, h) => RegionView::Percentage(x@, y@, w@, h@),
        }
    }
}

/// The size to scale the region to.
#[derive(Debug, Clone)]
pub enum Size {
    /// No scaling.
    Max,
    /// Written `^max`; treated as `Max`.
    ScaleAsFull,
    /// Scale to this width, keeping the aspect ratio.
    Width(u32),
    /// Scale to this height, keeping the aspect ratio.
    Height(u32),
    /// Scale to this width and this height, each on its own.
    WidthHeight(u32, u32),
    /// Scale to so many hundredths.
    Percentage(Number),
    /// Fit within this box. The grammar never yields it.
    WidthHeightMin(u32, u32),
}

/// What a [`Size`] says, with its number as a value.
pub enum SizeView {
    Max,
    ScaleAsFull,
    Width(u32),
    Height(u32),
    WidthHeight(u32, u32),
    Percentage(Decimal),
    WidthHeightMin(u32, u32),
}

impl View for Size {
    type V = SizeView;

    open spec fn view(&self) -> SizeView {
        match self {
            Size::Max => SizeView::Max,
            Size::ScaleAsFull => SizeView::ScaleAsFull,
            Size::Width(w) => SizeView::Width(*w),
            Size::Height(h) => SizeView::Height(*h),
            Size::WidthHeight(w, h) => SizeView::WidthHeight(*w, *h),
            Size::Percentage(n) => SizeView::Percentage(n@),
            Size::WidthHeightMin(w, h) => SizeView::WidthHeightMin(*w, *h),
        }
    }
}

/// A rotation in degrees, after an optional horizontal flip.
#[derive(Debug, Clone)]
pub struct Rotation {
    pub degrees: Number,
    pub mirror: bool,
}

/// What a [`Rotation`] says, with its angle as a value.
pub struct RotationView {
    pub degrees: Decimal,
    pub mirror: bool,
}

impl View for Rotation {
    type V = RotationView;

    open spec fn view(&self) -> RotationView {
        RotationView { degrees: self.degrees@, mirror: self.mirror }
    }
}

/// A whole image request. The identifier may end in a page selector.
#[derive(Debug, Clone)]
pub struct ImageRequest {
    pub identifier: String,
    pub region: Region,
    pub size: Size,
    pub rotation: Rotation,
    pub quality: Quality,
    pub format: Format,
}

/// What an [`ImageRequest`] says.
pub struct ImageRequestView {
    pub identifier: Seq<char>,
    pub region: RegionView,
    pub size: SizeView,
    pub rotation: RotationView,
    pub quality: Quality,
    pub format: Format,
}

impl View for ImageRequest {
    type V = ImageRequestView;

    open spec fn view(&self) -> ImageRequestView {
        ImageRequestView {
            identifier: self.identifier@,
            region: self.region@,
            size: self.size@,
            rotation: self.rotation@,
            quality: self.quality,
            format: self.format,
        }
    }
}

} // verus!
