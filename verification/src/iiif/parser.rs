//! The grammar of the five request segments.

use crate::digits::{parse_u32, u32_of};
use crate::iiif::types::{
    Format, Quality, Region, RegionView, Rotation, RotationView, Size, SizeView,
};
use crate::number::{number_of, Number};
use crate::text::{chars_of, copy_range, has_prefix, spells, split, split_on, starts_with};
use vstd::prelude::*;

verus! {

/// The quality that a segment names: one of the four lower-case words, and
/// nothing else.
pub open spec fn quality_of(s: Seq<char>) -> Option<Quality> {
    if s == "default"@ {
        Some(Quality::Default)
    } else if s == "color"@ {
        Some(Quality::Color)
    } else if s == "gray"@ {
        Some(Quality::Gray)
    } else if s == "bitonal"@ {
        Some(Quality::Bitonal)
    } else {
        None
    }
}

/// The format that a segment names: one of the six lower-case tokens, and
/// nothing else.
pub open spec fn format_of(s: Seq<char>) -> Option<Format> {
    if s == "jpg"@ {
        Some(Format::Jpg)
    } else if s == "png"@ {
        Some(Format::Png)
    } else if s == "tif"@ {
        Some(Format::Tif)
    } else if s == "webp"@ {
        Some(Format::Webp)
    } else if s == "gif"@ {
        Some(Format::Gif)
    } else if s == "pdf"@ {
        Some(Format::Pdf)
    } else {
        None
    }
}

/// Reads a quality word. Matching is exact: no case folding.
pub fn parse_quality(s: &str) -> (quality: Option<Quality>)
    ensures
        quality == quality_of(s@),
{
    let chars = chars_of(s);
    let c = chars.as_slice();
    if spells(c, "default") {
        Some(Quality::Default)
    } else if spells(c, "color") {
        Some(Quality::Color)
    } else if spells(c, "gray") {
        Some(Quality::Gray)
    } else if spells(c, "bitonal") {
        Some(Quality::Bitonal)
    } else {
        None
    }
}

/// Reads a format token. Matching is exact: no case folding, no aliases.
pub fn parse_format(s: &str) -> (format: Option<Format>)
    ensures
        format == format_of(s@),
{
    let chars = chars_of(s);
    let c = chars.as_slice();
    if spells(c, "jpg") {
        Some(Format::Jpg)
    } else if spells(c, "png") {
        Some(Format::Png)
    } else if spells(c, "tif") {
        Some(Format::Tif)
    } else if spells(c, "webp") {
        Some(Format::Webp)
    } else if spells(c, "gif") {
        Some(Format::Gif)
    } else if spells(c, "pdf") {
        Some(Format::Pdf)
    } else {
        None
    }
}

/// Whether `fields` are four numeric tokens.
pub open spec fn are_four_numbers(fields: Seq<Seq<char>>) -> bool {
    &&& fields.len() == 4
    &&& number_of(fields[0]) is Some
    &&& number_of(fields[1]) is Some
    &&& number_of(fields[2]) is Some
    &&& number_of(fields[3]) is Some
}

/// The region that a segment names: `full`, `square`, four numbers
/// between commas, or `pct:` and four numbers between commas. A segment
/// that begins with `pct:` is never read as a pixel region.
pub open spec fn region_of(s: Seq<char>) -> Option<RegionView> {
    if s == "full"@ {
        Some(RegionView::Full)
    } else if s == "square"@ {
        Some(RegionView::Square)
    } else if has_prefix(s, "pct:"@) {
        let f = split(s.skip(4), ',');
        if are_four_numbers(f) {
            Some(
                RegionView::Percentage(
                    number_of(f[0])->0,
                    number_of(f[1])->0,
                    number_of(f[2])->0,
                    number_of(f[3])->0,
                ),
            )
        } else {
            None
        }
    } else {
        let f = split(s, ',');
        if are_four_numbers(f) {
            Some(
                RegionView::Absolute(
                    number_of(f[0])->0,
                    number_of(f[1])->0,
                    number_of(f[2])->0,
                    number_of(f[3])->0,
                ),
            )
        } else {
            None
        }
    }
}

/// The two fields of a `w,h` size: a height alone where the first is
/// empty, a width alone where the second is, else both.
pub open spec fn width_height_of(w: Seq<char>, h: Seq<char>) -> Option<SizeView> {
    if w.len() == 0 {
        match u32_of(h) {
            Some(h) => Some(SizeView::Height(h)),
            None => None,
        }
    } else if h.len() == 0 {
        match u32_of(w) {
            Some(w) => Some(SizeView::Width(w)),
            None => None,
        }
    } else {
        match (u32_of(w), u32_of(h)) {
            (Some(w), Some(h)) => Some(SizeView::WidthHeight(w, h)),
            _ => None,
        }
    }
}

/// The size that a segment names: `max`, `^max`, `pct:` and a number, or
/// two fields around one comma. The form that begins with `!` names
/// nothing.
pub open spec fn size_of(s: Seq<char>) -> Option<SizeView> {
    if s == "max"@ {
        Some(SizeView::Max)
    } else if s == "^max"@ {
        Some(SizeView::ScaleAsFull)
    } else if has_prefix(s, "pct:"@) {
        match number_of(s.skip(4)) {
            Some(n) => Some(SizeView::Percentage(n)),
            None => None,
        }
    } else if split(s, ',').len() == 2 {
        width_height_of(split(s, ',')[0], split(s, ',')[1])
    } else {
        None
    }
}

/// The rotation that a segment names: a number, after a `!` where the
/// image is to be mirrored first.
pub open spec fn rotation_of(s: Seq<char>) -> Option<RotationView> {
    if s.len() > 0 && s[0] == '!' {
        match number_of(s.skip(1)) {
            Some(n) => Some(RotationView { degrees: n, mirror: true }),
            None => None,
        }
    } else {
        match number_of(s) {
            Some(n) => Some(RotationView { degrees: n, mirror: false }),
            None => None,
        }
    }
}

/// The four numbers of a region.
struct Quad {
    x: Number,
    y: Number,
    w: Number,
    h: Number,
}

/// Reads four numbers between commas.
fn parse_quad(chars: &[char]) -> (quad: Option<Quad>)
    ensures
        quad is Some == are_four_numbers(split(chars@, ',')),
        quad matches Some(q) ==> {
            let f = split(chars@, ',');
            &&& number_of(f[0]) == Some(q.x@)
            &&& number_of(f[1]) == Some(q.y@)
            &&& number_of(f[2]) == Some(q.w@)
            &&& number_of(f[3]) == Some(q.h@)
        },
{
    let fields = split_on(chars, ',');
    if fields.len() != 4 {
        return None;
    }
    let x = match Number::from_chars(fields[0].as_slice()) {
        Some(n) => n,
        None => {
            return None;
        },
    };
    let y = match Number::from_chars(fields[1].as_slice()) {
        Some(n) => n,
        None => {
            return None;
        },
    };
    let w = match Number::from_chars(fields[2].as_slice()) {
        Some(n) => n,
        None => {
            return None;
        },
    };
    let h = match Number::from_chars(fields[3].as_slice()) {
        Some(n) => n,
        None => {
            return None;
        },
    };
    Some(Quad { x, y, w, h })
}

/// Reads a region segment.
pub fn parse_region(s: &str) -> (region: Option<Region>)
    ensures
        region is Some == region_of(s@) is Some,
        region matches Some(r) ==> region_of(s@) == Some(r@),
{
    let chars = chars_of(s);
    let c = chars.as_slice();
    if spells(c, "full") {
        return Some(Region::Full);
    }
    if spells(c, "square") {
        return Some(Region::Square);
    }
    if starts_with(c, "pct:") {
        proof {
            reveal_strlit("pct:");
        }
        let rest = copy_range(c, 4, c.len());
        assert(rest@ == s@.skip(4));
        match parse_quad(rest.as_slice()) {
            Some(q) => Some(Region::Percentage(q.x, q.y, q.w, q.h)),
            None => None,
        }
    } else {
        match parse_quad(c) {
            Some(q) => Some(Region::Absolute(q.x, q.y, q.w, q.h)),
            None => None,
        }
    }
}

/// Reads the two fields of a `w,h` size.
fn parse_width_height(w: &[char], h: &[char]) -> (size: Option<Size>)
    ensures
        size is Some == width_height_of(w@, h@) is Some,
        size matches Some(z) ==> width_height_of(w@, h@) == Some(z@),
{
    if w.len() == 0 {
        match parse_u32(h) {
            Some(h) => Some(Size::Height(h)),
            None => None,
        }
    } else if h.len() == 0 {
        match parse_u32(w) {
            Some(w) => Some(Size::Width(w)),
            None => None,
        }
    } else {
        match (parse_u32(w), parse_u32(h)) {
            (Some(w), Some(h)) => Some(Size::WidthHeight(w, h)),
            _ => None,
        }
    }
}

/// Reads a size segment.
pub fn parse_size(s: &str) -> (size: Option<Size>)
    ensures
        size is Some == size_of(s@) is Some,
        size matches Some(z) ==> size_of(s@) == Some(z@),
{
    let chars = chars_of(s);
    let c = chars.as_slice();
    if spells(c, "max") {
        return Some(Size::Max);
    }
    if spells(c, "^max") {
        return Some(Size::ScaleAsFull);
    }
    if starts_with(c, "pct:") {
        proof {
            reveal_strlit("pct:");
        }
        let rest = copy_range(c, 4, c.len());
        assert(rest@ == s@.skip(4));
        return match Number::from_chars(rest.as_slice()) {
            Some(n) => Some(Size::Percentage(n)),
            None => None,
        };
    }
    let fields = split_on(c, ',');
    if fields.len() != 2 {
        return None;
    }
    parse_width_height(fields[0].as_slice(), fields[1].as_slice())
}

/// Reads a rotation segment.
pub fn parse_rotation(s: &str) -> (rotation: Option<Rotation>)
    ensures
        rotation is Some == rotation_of(s@) is Some,
        rotation matches Some(r) ==> rotation_of(s@) == Some(r@),
{
    let chars = chars_of(s);
    let c = chars.as_slice();
    if c.len() > 0 && c[0] == '!' {
        let rest = copy_range(c, 1, c.len());
        assert(rest@ == s@.skip(1));
        match Number::from_chars(rest.as_slice()) {
            Some(degrees) => Some(Rotation { degrees, mirror: true }),
            None => None,
        }
    } else {
        match Number::from_chars(c) {
            Some(degrees) => Some(Rotation { degrees, mirror: false }),
            None => None,
        }
    }
}

} // verus!
