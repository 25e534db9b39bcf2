use rust_iiif::iiif::types::{ImageRequest, Size};
use rust_iiif::processor::pdf::load_pdf_page;
use rust_iiif::processor::{
    next_stage, Encoder, ImageProcessor, Operation, Rect, Scale, Stage, BITONAL_LEVEL,
};
use rust_iiif::server::parse_request;

fn request(identifier: &str, region: &str, size: &str, rotation: &str, quality_format: &str) -> ImageRequest {
    parse_request(identifier, region, size, rotation, quality_format).expect("a request")
}

fn operation(req: &ImageRequest, path: &str, stage: Stage, width: i32, height: i32) -> Operation {
    let step = ImageProcessor::new().process_image(path, req, stage, width, height);
    assert_eq!(step.next, next_stage(stage));
    step.operation
}

/// Walks all stages on an image whose dimensions follow the crop and the
/// scale targets, and collects the operations other than `Nothing`.
fn walk(req: &ImageRequest, path: &str, width: i32, height: i32) -> Vec<Operation> {
    let processor = ImageProcessor::new();
    let mut stage = Stage::Load;
    let mut dims = (width, height);
    let mut done = Vec::new();
    let mut turns = 0;
    while stage != Stage::Done {
        let step = processor.process_image(path, req, stage, dims.0, dims.1);
        match &step.operation {
            Operation::Nothing => {}
            Operation::Crop(r) => {
                dims = (r.width, r.height);
                done.push(step.operation.clone());
            }
            _ => done.push(step.operation.clone()),
        }
        stage = step.next;
        turns += 1;
        assert!(turns <= 8);
    }
    done
}

#[test]
fn stages_follow_in_the_fixed_order() {
    let order = [
        Stage::Load,
        Stage::Region,
        Stage::Size,
        Stage::Mirror,
        Stage::Rotate,
        Stage::Quality,
        Stage::Threshold,
        Stage::Encode,
        Stage::Done,
    ];
    for pair in order.windows(2) {
        assert_eq!(next_stage(pair[0]), pair[1]);
    }
    assert_eq!(next_stage(Stage::Done), Stage::Done);
}

#[test]
fn square_max_default_jpg_on_400_by_300() {
    let req = request("photo.jpg", "square", "max", "0", "default.jpg");
    let ops = walk(&req, "/images/photo.jpg", 400, 300);
    assert_eq!(ops.len(), 3);
    assert!(matches!(&ops[0], Operation::Open(t) if t == "/images/photo.jpg"));
    assert!(matches!(&ops[1], Operation::Crop(r) if *r == Rect { x: 50, y: 0, width: 300, height: 300 }));
    assert!(matches!(&ops[2], Operation::Encode(Encoder::Jpeg)));
}

#[test]
fn width_150_on_300_by_200_scales_both_axes_by_one_factor() {
    let req = request("photo.jpg", "full", "150,", "0", "default.jpg");
    match operation(&req, "photo.jpg", Stage::Size, 300, 200) {
        Operation::Resize(scale) => {
            assert_eq!(scale, Scale { target: 150, current: 300 });
            let w = 300 * scale.target as i64 / scale.current as i64;
            let h = 200 * scale.target as i64 / scale.current as i64;
            assert_eq!((w, h), (150, 100));
        }
        other => panic!("{:?}", other),
    }
}

#[test]
fn height_alone_scales_by_the_height() {
    let req = request("photo.jpg", "full", ",50", "0", "default.jpg");
    assert!(matches!(
        operation(&req, "photo.jpg", Stage::Size, 300, 200),
        Operation::Resize(Scale { target: 50, current: 200 })
    ));
}

#[test]
fn width_and_height_scale_each_axis_on_its_own() {
    let req = request("photo.jpg", "full", "100,100", "0", "default.jpg");
    assert!(matches!(
        operation(&req, "photo.jpg", Stage::Size, 300, 200),
        Operation::ResizeBoth(Scale { target: 100, current: 300 }, Scale { target: 100, current: 200 })
    ));
}

#[test]
fn size_follows_the_dimensions_after_the_crop() {
    let req = request("photo.jpg", "square", "150,", "0", "default.jpg");
    let ops = walk(&req, "photo.jpg", 400, 300);
    assert!(matches!(&ops[2], Operation::Resize(Scale { target: 150, current: 300 })));
}

#[test]
fn sizes_without_a_transform_do_nothing() {
    for size in ["max", "^max", "pct:50"] {
        let req = request("photo.jpg", "full", size, "0", "default.jpg");
        assert!(matches!(operation(&req, "photo.jpg", Stage::Size, 300, 200), Operation::Nothing));
    }
}

#[test]
fn a_size_confined_to_a_box_passes_through() {
    let mut req = request("photo.jpg", "full", "max", "0", "default.jpg");
    req.size = Size::WidthHeightMin(100, 100);
    assert!(matches!(operation(&req, "photo.jpg", Stage::Size, 300, 200), Operation::Nothing));
}

#[test]
fn full_region_does_nothing() {
    let req = request("photo.jpg", "full", "max", "0", "default.jpg");
    assert!(matches!(operation(&req, "photo.jpg", Stage::Region, 400, 300), Operation::Nothing));
}

#[test]
fn square_of_a_tall_image_and_of_odd_margins() {
    let req = request("photo.jpg", "square", "max", "0", "default.jpg");
    assert!(matches!(
        operation(&req, "photo.jpg", Stage::Region, 300, 400),
        Operation::Crop(Rect { x: 0, y: 50, width: 300, height: 300 })
    ));
    assert!(matches!(
        operation(&req, "photo.jpg", Stage::Region, 301, 200),
        Operation::Crop(Rect { x: 50, y: 0, width: 200, height: 200 })
    ));
    assert!(matches!(
        operation(&req, "photo.jpg", Stage::Region, 200, 200),
        Operation::Crop(Rect { x: 0, y: 0, width: 200, height: 200 })
    ));
    assert!(matches!(
        operation(&req, "photo.jpg", Stage::Region, i32::MAX, i32::MIN),
        Operation::Crop(Rect { x: 2147483647, y: 0, width: i32::MIN, height: i32::MIN })
    ));
}

#[test]
fn region_in_pixels_drops_fractions() {
    let req = request("photo.jpg", "10.9,20.1,100.5,50", "max", "0", "default.jpg");
    assert!(matches!(
        operation(&req, "photo.jpg", Stage::Region, 400, 300),
        Operation::Crop(Rect { x: 10, y: 20, width: 100, height: 50 })
    ));
}

#[test]
fn region_in_percent_is_taken_of_the_source_dimensions() {
    let req = request("photo.jpg", "pct:10,20,50,33.4", "max", "0", "default.jpg");
    assert!(matches!(
        operation(&req, "photo.jpg", Stage::Region, 400, 300),
        Operation::Crop(Rect { x: 40, y: 60, width: 200, height: 100 })
    ));
    let req = request("photo.jpg", "pct:0,0,33.33,66.67", "max", "0", "default.jpg");
    assert!(matches!(
        operation(&req, "photo.jpg", Stage::Region, 1000, 1000),
        Operation::Crop(Rect { x: 0, y: 0, width: 333, height: 666 })
    ));
}

#[test]
fn mirror_comes_before_rotation() {
    let req = request("photo.jpg", "full", "max", "!90", "default.jpg");
    let ops = walk(&req, "photo.jpg", 400, 300);
    assert_eq!(ops.len(), 4);
    assert!(matches!(&ops[1], Operation::FlipHorizontal));
    assert!(matches!(&ops[2], Operation::Rotate(d) if d.as_str() == "90"));
}

#[test]
fn rotation_by_zero_does_nothing() {
    for rotation in ["0", "0.0", "-0", "!0"] {
        let req = request("photo.jpg", "full", "max", rotation, "default.jpg");
        assert!(matches!(operation(&req, "photo.jpg", Stage::Rotate, 400, 300), Operation::Nothing));
    }
    let req = request("photo.jpg", "full", "max", "!0", "default.jpg");
    assert!(matches!(operation(&req, "photo.jpg", Stage::Mirror, 400, 300), Operation::FlipHorizontal));
    let req = request("photo.jpg", "full", "max", "0.5", "default.jpg");
    assert!(matches!(operation(&req, "photo.jpg", Stage::Rotate, 400, 300), Operation::Rotate(_)));
}

#[test]
fn qualities() {
    for quality in ["default", "color"] {
        let req = request("photo.jpg", "full", "max", "0", &format!("{}.jpg", quality));
        assert!(matches!(operation(&req, "p", Stage::Quality, 4, 3), Operation::Nothing));
        assert!(matches!(operation(&req, "p", Stage::Threshold, 4, 3), Operation::Nothing));
    }
    let req = request("photo.jpg", "full", "max", "0", "gray.jpg");
    assert!(matches!(operation(&req, "p", Stage::Quality, 4, 3), Operation::Grayscale));
    assert!(matches!(operation(&req, "p", Stage::Threshold, 4, 3), Operation::Nothing));
    let req = request("photo.jpg", "full", "max", "0", "bitonal.jpg");
    assert!(matches!(operation(&req, "p", Stage::Quality, 4, 3), Operation::Grayscale));
    assert!(matches!(operation(&req, "p", Stage::Threshold, 4, 3), Operation::Threshold(128)));
    assert_eq!(BITONAL_LEVEL, 128);
}

#[test]
fn formats_without_an_encoder_fall_back_to_jpeg() {
    let expected = [
        ("jpg", Encoder::Jpeg),
        ("png", Encoder::Png),
        ("webp", Encoder::Webp),
        ("tif", Encoder::Jpeg),
        ("gif", Encoder::Jpeg),
        ("pdf", Encoder::Jpeg),
    ];
    for (token, encoder) in expected {
        let req = request("photo.jpg", "full", "max", "0", &format!("default.{}", token));
        assert!(matches!(operation(&req, "p", Stage::Encode, 4, 3), Operation::Encode(e) if e == encoder));
    }
}

#[test]
fn after_the_last_stage_nothing_is_done() {
    let req = request("photo.jpg", "square", "150,", "!90", "bitonal.png");
    assert!(matches!(operation(&req, "p", Stage::Done, 4, 3), Operation::Nothing));
}

#[test]
fn all_operations_of_a_full_request() {
    let req = request("photo.jpg", "square", "150,", "!90", "bitonal.png");
    let ops = walk(&req, "photo.jpg", 400, 300);
    assert_eq!(ops.len(), 8);
    assert!(matches!(&ops[0], Operation::Open(_)));
    assert!(matches!(&ops[1], Operation::Crop(_)));
    assert!(matches!(&ops[2], Operation::Resize(_)));
    assert!(matches!(&ops[3], Operation::FlipHorizontal));
    assert!(matches!(&ops[4], Operation::Rotate(_)));
    assert!(matches!(&ops[5], Operation::Grayscale));
    assert!(matches!(&ops[6], Operation::Threshold(128)));
    assert!(matches!(&ops[7], Operation::Encode(Encoder::Png)));
}

#[test]
fn the_same_request_gives_the_same_operations() {
    let req = request("photo.jpg", "pct:10,10,80,80", "200,", "!45", "gray.webp");
    let first = format!("{:?}", walk(&req, "photo.jpg", 1000, 800));
    let second = format!("{:?}", walk(&req, "photo.jpg", 1000, 800));
    assert_eq!(first, second);
}

#[test]
fn page_2_of_a_pdf_is_loaded() {
    let req = request("doc.pdf:page:2", "full", "max", "0", "default.jpg");
    assert!(matches!(
        operation(&req, "/images/doc.pdf", Stage::Load, 0, 0),
        Operation::Open(t) if t == "/images/doc.pdf[page=2]"
    ));
}

#[test]
fn load_target_of_paged_and_plain_sources() {
    let p = ImageProcessor::new();
    assert_eq!(p.load_target("/images/doc.pdf", "doc.pdf"), "/images/doc.pdf[page=0]");
    assert_eq!(p.load_target("/images/doc.PDF", "doc.PDF:page:7"), "/images/doc.PDF[page=7]");
    assert_eq!(p.load_target("/images/doc.Pdf", "doc.Pdf:page:x"), "/images/doc.Pdf[page=0]");
    assert_eq!(p.load_target("/images/doc.pdf", "doc.pdf:page:-3"), "/images/doc.pdf[page=-3]");
    assert_eq!(p.load_target("/images/doc.pdf", "doc.pdf:page:99999999999"), "/images/doc.pdf[page=0]");
    assert_eq!(p.load_target("/images/doc.pdf", "doc.pdf:page:1:page:2"), "/images/doc.pdf[page=0]");
    assert_eq!(p.load_target("/images/photo.jpg", "photo.jpg"), "/images/photo.jpg");
    assert_eq!(p.load_target("/images/pdf", "pdf"), "/images/pdf");
    assert_eq!(p.load_target("pdf", "pdf"), "pdf");
    assert_eq!(p.load_target(".pdf", "x"), ".pdf[page=0]");
    assert_eq!(p.load_target("a.pdfx", "x"), "a.pdfx");
}

#[test]
fn a_page_selector_is_honoured_for_every_kind_of_source() {
    let p = ImageProcessor::new();
    assert_eq!(p.load_target("/images/scan.tif", "scan.tif:page:2"), "/images/scan.tif[page=2]");
    assert_eq!(p.load_target("/images/anim.gif", "anim.gif:page:0"), "/images/anim.gif[page=0]");
    assert_eq!(p.load_target("/images/photo.jpg", "photo.jpg:page:2"), "/images/photo.jpg[page=2]");
    assert_eq!(p.load_target("/images/scan.tif", "scan.tif:page:x"), "/images/scan.tif[page=0]");
    assert_eq!(p.load_target("/images/scan.tif", "scan.tif:page:"), "/images/scan.tif[page=0]");
    assert_eq!(p.load_target("/images/scan", "scan:page:-1"), "/images/scan[page=-1]");
    assert_eq!(p.load_target("/images/scan.tif", "scan.tif"), "/images/scan.tif");
    assert_eq!(p.load_target("/images/scan.tif", "scan.tif:page"), "/images/scan.tif");
    let req = request("scan.tif:page:3", "full", "max", "0", "default.jpg");
    assert!(matches!(
        operation(&req, "/images/scan.tif", Stage::Load, 0, 0),
        Operation::Open(t) if t == "/images/scan.tif[page=3]"
    ));
}

#[test]
fn pdf_page_targets() {
    assert_eq!(load_pdf_page("doc.pdf", 0), "doc.pdf[page=0]");
    assert_eq!(load_pdf_page("doc.pdf", 12), "doc.pdf[page=12]");
    assert_eq!(load_pdf_page("doc.pdf", -1), "doc.pdf[page=-1]");
    assert_eq!(load_pdf_page("doc.pdf", i32::MAX), "doc.pdf[page=2147483647]");
    assert_eq!(load_pdf_page("doc.pdf", i32::MIN), "doc.pdf[page=-2147483648]");
    assert_eq!(load_pdf_page("", 100), "[page=100]");
}

#[test]
fn paged_sources_are_told_by_their_lower_cased_ending() {
    let endings = [
        ".pdf", ".PDF", ".Pdf", ".pDf", ".pdF", ".pdf ", "pdf", ".pd", ".pdff", ".p\u{10f}f", ".\u{3c1}df",
        ".pd\u{17f}", ".\u{212a}df", ".pd\u{fb00}", ".PD\u{130}", "\u{130}.pdf", ".pdf\u{130}", "\u{fb01}.PDF",
        ".tiff", "", ".", "\u{2024}pdf",
    ];
    let p = ImageProcessor::new();
    for stem in ["", "a", "/images/doc", "\u{130}\u{df}"] {
        for ending in endings {
            let path = format!("{}{}", stem, ending);
            let paged = p.load_target(&path, "x") != path;
            assert_eq!(paged, path.to_lowercase().ends_with(".pdf"), "{:?}", path);
        }
    }
}
