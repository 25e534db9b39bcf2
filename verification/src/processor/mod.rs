//! The transform pipeline: which operation the image backend is to carry
//! out at each stage of a request.
//!
//! The backend itself is not part of this library. A caller walks the
//! stages from [`Stage::Load`] to [`Stage::Done`]: at each stage it asks
//! [`ImageProcessor::process_image`] for the operation, has the backend
//! carry it out on the image it holds, and goes on to the next stage with
//! the dimensions of the result.

pub mod pdf;

use crate::iiif::identifier::{has_selector, page_index, page_of, selector_of};
use crate::iiif::types::{
    Format, ImageRequest, ImageRequestView, Quality, Region, RegionView, Size, SizeView,
};
use crate::number::{lower, Decimal, Number};
use crate::processor::pdf::{load_pdf_page, page_target};
use crate::text::chars_of;
use vstd::prelude::*;
use vstd::string::StringExecFns;

verus! {

/// A rectangle of pixels: its left and top edge, its width and height.
#[derive(Clone, Copy, Debug, PartialEq, Eq, Structural)]
pub struct Rect {
    pub x: i32,
    pub y: i32,
    pub width: i32,
    pub height: i32,
}

/// A scale factor, as the extent asked for over the extent at hand.
#[derive(Clone, Copy, Debug, PartialEq, Eq, Structural)]
pub struct Scale {
    pub target: u32,
    pub current: i32,
}

/// The encoders of the backend.
#[derive(Clone, Copy, Debug, PartialEq, Eq, Structural)]
pub enum Encoder {
    Jpeg,
    Png,
    Webp,
}

/// The stages of the pipeline, in their order.
#[derive(Clone, Copy, Debug, PartialEq, Eq, Structural)]
pub enum Stage {
    Load,
    Region,
    Size,
    Mirror,
    Rotate,
    Quality,
    Threshold,
    Encode,
    Done,
}

/// What the backend is to do to the image it holds.
#[derive(Debug, Clone)]
pub enum Operation {
    /// Leave the image as it is.
    Nothing,
    /// Open this source.
    Open(String),
    /// Cut this rectangle out.
    Crop(Rect),
    /// Scale both axes by this factor.
    Resize(Scale),
    /// Scale the horizontal axis by the first factor and the vertical axis
    /// by the second.
    ResizeBoth(Scale, Scale),
    /// Mirror the image at its vertical axis.
    FlipHorizontal,
    /// Rotate by so many degrees.
    Rotate(Number),
    /// Convert to a single channel of luminance.
    Grayscale,
    /// Set every sample above this value to the highest value and every
    /// other sample to the lowest.
    Threshold(u8),
    /// Encode the image; the bytes are the result of the request.
    Encode(Encoder),
}

/// What an [`Operation`] says, with its text and number as values.
pub enum OperationView {
    Nothing,
    Open(Seq<char>),
    Crop(Rect),
    Resize(Scale),
    ResizeBoth(Scale, Scale),
    FlipHorizontal,
    Rotate(Decimal),
    Grayscale,
    Threshold(u8),
    Encode(Encoder),
}

impl View for Operation {
    type V = OperationView;

    open spec fn view(&self) -> OperationView {
        match self {
            Operation::Nothing => OperationView::Nothing,
            Operation::Open(target) => OperationView::Open(target@),
            Operation::Crop(rect) => OperationView::Crop(*rect),
            Operation::Resize(scale) => OperationView::Resize(*scale),
            Operation::ResizeBoth(h, v) => OperationView::ResizeBoth(*h, *v),
            Operation::FlipHorizontal => OperationView::FlipHorizontal,
            Operation::Rotate(degrees) => OperationView::Rotate(degrees@),
            Operation::Grayscale => OperationView::Grayscale,
            Operation::Threshold(level) => OperationView::Threshold(*level),
            Operation::Encode(encoder) => OperationView::Encode(*encoder),
        }
    }
}

/// One step of the pipeline: the operation of a stage, and the stage that
/// follows.
#[derive(Debug, Clone)]
pub struct Step {
    pub operation: Operation,
    pub next: Stage,
}

/// The sample value above which a bitonal image is white: the midpoint of
/// the range of a sample.
pub const BITONAL_LEVEL: u8 = 128;

/// Whether `path` ends in `.pdf`, in any mix of ASCII cases.
pub open spec fn is_pdf(path: Seq<char>) -> bool {
    let n = path.len() as int;
    &&& n >= 4
    &&& path[n - 4] == '.'
    &&& lower(path[n - 3]) == 'p'
    &&& lower(path[n - 2]) == 'd'
    &&& lower(path[n - 1]) == 'f'
}

/// What the backend is to open for `identifier`, whose source lies at
/// `path`. Where the identifier carries a page selector, it is the selected
/// page, whatever kind of file the source is. Without a selector it is the
/// first page of a source whose path ends in `.pdf`, and any other source
/// as it is.
pub open spec fn target_of(path: Seq<char>, identifier: Seq<char>) -> Seq<char> {
    if selector_of(identifier) is Some || is_pdf(path) {
        page_target(path, page_of(identifier))
    } else {
        path
    }
}

/// A page selector is honoured for every source: with one, what is opened
/// is the selected page, whatever the path ends in.
pub proof fn lemma_selected_page_is_opened(path: Seq<char>, identifier: Seq<char>)
    requires
        selector_of(identifier) is Some,
    ensures
        target_of(path, identifier) == page_target(path, page_of(identifier)),
{
}

/// The centred square of an image whose side is the image's shorter side.
pub open spec fn square_of(width: i32, height: i32) -> Rect {
    let side = if width <= height {
        width
    } else {
        height
    };
    Rect {
        x: ((width - side) / 2) as i32,
        y: ((height - side) / 2) as i32,
        width: side,
        height: side,
    }
}

/// The rectangle that `region` cuts out of an image of the given
/// dimensions; none for the whole image. Fractions of pixels are dropped.
pub open spec fn crop_of(region: RegionView, width: i32, height: i32) -> Option<Rect> {
    match region {
        RegionView::Full => None,
        RegionView::Square => Some(square_of(width, height)),
        RegionView::Absolute(x, y, w, h) => Some(
            Rect {
                x: x.truncated() as i32,
                y: y.truncated() as i32,
                width: w.truncated() as i32,
                height: h.truncated() as i32,
            },
        ),
        RegionView::Percentage(x, y, w, h) => Some(
            Rect {
                x: x.percent_of(width as int) as i32,
                y: y.percent_of(height as int) as i32,
                width: w.percent_of(width as int) as i32,
                height: h.percent_of(height as int) as i32,
            },
        ),
    }
}

/// The scaling that `size` asks of an image of the given dimensions. A
/// width or a height alone scales both axes by the one factor; a width and
/// a height scale each axis by its own factor.
pub open spec fn resize_of(size: SizeView, width: i32, height: i32) -> OperationView {
    match size {
        SizeView::Width(w) => OperationView::Resize(Scale { target: w, current: width }),
        SizeView::Height(h) => OperationView::Resize(Scale { target: h, current: height }),
        SizeView::WidthHeight(w, h) => OperationView::ResizeBoth(
            Scale { target: w, current: width },
            Scale { target: h, current: height },
        ),
        _ => OperationView::Nothing,
    }
}

/// The encoder for `format`: its own where there is one, else JPEG.
pub open spec fn encoder_of(format: Format) -> Encoder {
    match format {
        Format::Png => Encoder::Png,
        Format::Webp => Encoder::Webp,
        _ => Encoder::Jpeg,
    }
}

/// The stage that follows `stage`.
pub open spec fn stage_after(stage: Stage) -> Stage {
    match stage {
        Stage::Load => Stage::Region,
        Stage::Region => Stage::Size,
        Stage::Size => Stage::Mirror,
        Stage::Mirror => Stage::Rotate,
        Stage::Rotate => Stage::Quality,
        Stage::Quality => Stage::Threshold,
        Stage::Threshold => Stage::Encode,
        Stage::Encode => Stage::Done,
        Stage::Done => Stage::Done,
    }
}

/// The operation of `stage` for the request `req` on the source at `path`,
/// when the image at hand has the given dimensions.
pub open spec fn operation_at(
    stage: Stage,
    path: Seq<char>,
    req: ImageRequestView,
    width: i32,
    height: i32,
) -> OperationView {
    match stage {
        Stage::Load => OperationView::Open(target_of(path, req.identifier)),
        Stage::Region => match crop_of(req.region, width, height) {
            Some(rect) => OperationView::Crop(rect),
            None => OperationView::Nothing,
        },
        Stage::Size => resize_of(req.size, width, height),
        Stage::Mirror => if req.rotation.mirror {
            OperationView::FlipHorizontal
        } else {
            OperationView::Nothing
        },
        Stage::Rotate => if req.rotation.degrees.is_zero() {
            OperationView::Nothing
        } else {
            OperationView::Rotate(req.rotation.degrees)
        },
        Stage::Quality => match req.quality {
            Quality::Gray | Quality::Bitonal => OperationView::Grayscale,
            _ => OperationView::Nothing,
        },
        Stage::Threshold => match req.quality {
            Quality::Bitonal => OperationView::Threshold(BITONAL_LEVEL),
            _ => OperationView::Nothing,
        },
        Stage::Encode => OperationView::Encode(encoder_of(req.format)),
        Stage::Done => OperationView::Nothing,
    }
}

/// The stage that is reached from `stage` after `turns` turns.
pub open spec fn stage_after_turns(stage: Stage, turns: nat) -> Stage
    decreases turns,
{
    if turns == 0 {
        stage
    } else {
        stage_after_turns(stage_after(stage), (turns - 1) as nat)
    }
}

/// The order of the pipeline is fixed: from loading, the stages follow as
/// region, size, mirror, rotation, quality, threshold and encoding, and
/// after the eighth turn the pipeline is done and stays so.
pub proof fn lemma_stages_in_order(turns: nat)
    ensures
        stage_after_turns(Stage::Load, 1) == Stage::Region,
        stage_after_turns(Stage::Load, 2) == Stage::Size,
        stage_after_turns(Stage::Load, 3) == Stage::Mirror,
        stage_after_turns(Stage::Load, 4) == Stage::Rotate,
        stage_after_turns(Stage::Load, 5) == Stage::Quality,
        stage_after_turns(Stage::Load, 6) == Stage::Threshold,
        stage_after_turns(Stage::Load, 7) == Stage::Encode,
        turns >= 8 ==> stage_after_turns(Stage::Load, turns) == Stage::Done,
{
    reveal_with_fuel(stage_after_turns, 9);
    if turns >= 8 {
        lemma_done_stays(Stage::Load, 8, turns);
    }
}

/// Once a pipeline is done, it stays done.
proof fn lemma_done_stays(stage: Stage, reached: nat, turns: nat)
    requires
        reached <= turns,
        stage_after_turns(stage, reached) == Stage::Done,
    ensures
        stage_after_turns(stage, turns) == Stage::Done,
    decreases reached,
{
    if reached == 0 {
        lemma_done_is_final(turns);
    } else {
        lemma_done_stays(stage_after(stage), (reached - 1) as nat, (turns - 1) as nat);
    }
}

proof fn lemma_done_is_final(turns: nat)
    ensures
        stage_after_turns(Stage::Done, turns) == Stage::Done,
    decreases turns,
{
    if turns > 0 {
        lemma_done_is_final((turns - 1) as nat);
    }
}

/// The pipeline is a function of its inputs: the same source, the same
/// request and the same dimensions ask the same operation of the backend
/// at every stage. (That the backend then produces the same bytes is its
/// own affair.)
pub proof fn lemma_same_inputs_same_operation(
    stage: Stage,
    path1: Seq<char>,
    req1: ImageRequestView,
    path2: Seq<char>,
    req2: ImageRequestView,
    width: i32,
    height: i32,
)
    requires
        path1 == path2,
        req1 == req2,
    ensures
        operation_at(stage, path1, req1, width, height) == operation_at(
            stage,
            path2,
            req2,
            width,
            height,
        ),
{
}

/// The square region is the centred square of an image: its side is the
/// shorter side of the image, it lies within the image, and the margins
/// on its two sides differ by at most one pixel.
pub proof fn lemma_square_is_centred(width: i32, height: i32)
    requires
        width >= 0,
        height >= 0,
    ensures
        ({
            let r = square_of(width, height);
            &&& r.width == r.height
            &&& r.width == if width <= height {
                width
            } else {
                height
            }
            &&& 0 <= r.x && r.x + r.width <= width
            &&& 0 <= r.y && r.y + r.height <= height
            &&& 0 <= (width - r.width - r.x) - r.x <= 1
            &&& 0 <= (height - r.height - r.y) - r.y <= 1
        }),
{
}

/// Whether `path` ends in `.pdf`, in any mix of ASCII cases.
fn ends_in_pdf(path: &[char]) -> (yes: bool)
    ensures
        yes == is_pdf(path@),
{
    let n = path.len();
    if n < 4 {
        return false;
    }
    let p = path[n - 3];
    let d = path[n - 2];
    let f = path[n - 1];
    path[n - 4] == '.' && (p == 'p' || p == 'P') && (d == 'd' || d == 'D') && (f == 'f' || f
        == 'F')
}

/// The rectangle that `region` cuts out.
fn crop(region: &Region, width: i32, height: i32) -> (rect: Option<Rect>)
    ensures
        rect == crop_of(region@, width, height),
{
    match region {
        Region::Full => None,
        Region::Square => {
            let side = if width <= height { width } else { height };
            let x = ((width as i64 - side as i64) / 2) as i32;
            let y = ((height as i64 - side as i64) / 2) as i32;
            Some(Rect { x, y, width: side, height: side })
        },
        Region::Absolute(x, y, w, h) => Some(
            Rect { x: x.truncate(), y: y.truncate(), width: w.truncate(), height: h.truncate() },
        ),
        Region::Percentage(x, y, w, h) => Some(
            Rect {
                x: x.percent_of(width),
                y: y.percent_of(height),
                width: w.percent_of(width),
                height: h.percent_of(height),
            },
        ),
    }
}

/// The scaling that `size` asks for.
fn resize(size: &Size, width: i32, height: i32) -> (operation: Operation)
    ensures
        operation@ == resize_of(size@, width, height),
{
    match size {
        Size::Width(w) => Operation::Resize(Scale { target: *w, current: width }),
        Size::Height(h) => Operation::Resize(Scale { target: *h, current: height }),
        Size::WidthHeight(w, h) => Operation::ResizeBoth(
            Scale { target: *w, current: width },
            Scale { target: *h, current: height },
        ),
        _ => Operation::Nothing,
    }
}

/// The encoder for `format`.
fn encoder(format: Format) -> (e: Encoder)
    ensures
        e == encoder_of(format),
{
    match format {
        Format::Png => Encoder::Png,
        Format::Webp => Encoder::Webp,
        _ => Encoder::Jpeg,
    }
}

/// The stage that follows `stage`.
pub fn next_stage(stage: Stage) -> (next: Stage)
    ensures
        next == stage_after(stage),
{
    match stage {
        Stage::Load => Stage::Region,
        Stage::Region => Stage::Size,
        Stage::Size => Stage::Mirror,
        Stage::Mirror => Stage::Rotate,
        Stage::Rotate => Stage::Quality,
        Stage::Quality => Stage::Threshold,
        Stage::Threshold => Stage::Encode,
        Stage::Encode => Stage::Done,
        Stage::Done => Stage::Done,
    }
}

/// Plans the transforms of a request.
pub struct ImageProcessor {}

impl ImageProcessor {
    pub fn new() -> (processor: ImageProcessor) {
        ImageProcessor {  }
    }

    /// What the backend is to open for `identifier`, whose source lies at
    /// `path`. The dimensions of an image are those of what is opened so.
    pub fn load_target(&self, path: &str, identifier: &str) -> (target: String)
        ensures
            target@ == target_of(path@, identifier@),
    {
        let chars = chars_of(path);
        if has_selector(identifier) || ends_in_pdf(chars.as_slice()) {
            load_pdf_page(path, page_index(identifier))
        } else {
            String::from_str(path)
        }
    }

    /// The operation of `stage` for the request `req` on the source at
    /// `path`, and the stage that follows. `width` and `height` are the
    /// dimensions of the image that the backend holds after the stages
    /// before; at [`Stage::Load`], where it holds none, they play no part.
    pub fn process_image(
        &self,
        path: &str,
        req: &ImageRequest,
        stage: Stage,
        width: i32,
        height: i32,
    ) -> (step: Step)
        ensures
            step.operation@ == operation_at(stage, path@, req@, width, height),
            step.next == stage_after(stage),
    {
        let operation = match stage {
            Stage::Load => Operation::Open(self.load_target(path, req.identifier.as_str())),
            Stage::Region => match crop(&req.region, width, height) {
                Some(rect) => Operation::Crop(rect),
                None => Operation::Nothing,
            },
            Stage::Size => resize(&req.size, width, height),
            Stage::Mirror => if req.rotation.mirror {
                Operation::FlipHorizontal
            } else {
                Operation::Nothing
            },
            Stage::Rotate => if req.rotation.degrees.is_zero() {
                Operation::Nothing
            } else {
                Operation::Rotate(req.rotation.degrees.clone())
            },
            Stage::Quality => match req.quality {
                Quality::Gray | Quality::Bitonal => Operation::Grayscale,
                _ => Operation::Nothing,
            },
            Stage::Threshold => match req.quality {
                Quality::Bitonal => Operation::Threshold(BITONAL_LEVEL),
                _ => Operation::Nothing,
            },
            Stage::Encode => Operation::Encode(encoder(req.format)),
            Stage::Done => Operation::Nothing,
        };
        Step { operation, next: next_stage(stage) }
    }
}

} // verus!
