use rust_iiif::iiif::parser::{parse_format, parse_quality};
use rust_iiif::iiif::types::{Format, Quality};

#[test]
fn quality_words_are_matched_exactly() {
    assert_eq!(parse_quality("default"), Some(Quality::Default));
    assert_eq!(parse_quality("color"), Some(Quality::Color));
    assert_eq!(parse_quality("gray"), Some(Quality::Gray));
    assert_eq!(parse_quality("bitonal"), Some(Quality::Bitonal));
    assert_eq!(parse_quality("Gray"), None);
    assert_eq!(parse_quality("grey"), None);
    assert_eq!(parse_quality(""), None);
}

#[test]
fn format_tokens_are_matched_exactly() {
    assert_eq!(parse_format("jpg"), Some(Format::Jpg));
    assert_eq!(parse_format("png"), Some(Format::Png));
    assert_eq!(parse_format("tif"), Some(Format::Tif));
    assert_eq!(parse_format("webp"), Some(Format::Webp));
    assert_eq!(parse_format("gif"), Some(Format::Gif));
    assert_eq!(parse_format("pdf"), Some(Format::Pdf));
    assert_eq!(parse_format("jpeg"), None);
    assert_eq!(parse_format("JPG"), None);
    assert_eq!(parse_format("tiff"), None);
}
