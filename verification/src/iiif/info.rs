//! The descriptor document of an image.

use vstd::prelude::*;
use vstd::string::StringExecFns;

verus! {

/// What `info.json` says of an image.
#[derive(Debug)]
pub struct ImageInfo {
    pub context: String,
    pub id: String,
    pub service_type: String,
    pub protocol: String,
    pub profile: String,
    pub width: u32,
    pub height: u32,
    pub extra_features: Vec<String>,
}

/// What an [`ImageInfo`] says.
pub struct ImageInfoView {
    pub context: Seq<char>,
    pub id: Seq<char>,
    pub service_type: Seq<char>,
    pub protocol: Seq<char>,
    pub profile: Seq<char>,
    pub width: u32,
    pub height: u32,
    pub extra_features: Seq<Seq<char>>,
}

impl View for ImageInfo {
    type V = ImageInfoView;

    open spec fn view(&self) -> ImageInfoView {
        ImageInfoView {
            context: self.context@,
            id: self.id@,
            service_type: self.service_type@,
            protocol: self.protocol@,
            profile: self.profile@,
            width: self.width,
            height: self.height,
            extra_features: Seq::new(
                self.extra_features@.len(),
                |i: int| self.extra_features@[i]@,
            ),
        }
    }
}

/// The descriptor of the image with canonical URL `id` and the given
/// dimensions: besides these, the context and protocol URIs, the service
/// type, the compliance level and the three extra features, which are the
/// same for every image.
pub open spec fn info_of(id: Seq<char>, width: u32, height: u32) -> ImageInfoView {
    ImageInfoView {
        context: "http://iiif.io/api/image/3/context.json"@,
        id,
        service_type: "ImageService3"@,
        protocol: "http://iiif.io/api/image"@,
        profile: "level2"@,
        width,
        height,
        extra_features: seq!["rotationArbitrary"@, "mirroring"@, "regionSquare"@],
    }
}

impl ImageInfo {
    /// The descriptor of the image with canonical URL `id` and the given
    /// pixel dimensions.
    pub fn new(id: String, width: u32, height: u32) -> (info: ImageInfo)
        ensures
            info@ == info_of(id@, width, height),
    {
        let mut extra_features: Vec<String> = Vec::new();
        extra_features.push(String::from_str("rotationArbitrary"));
        extra_features.push(String::from_str("mirroring"));
        extra_features.push(String::from_str("regionSquare"));
        let info = ImageInfo {
            context: String::from_str("http://iiif.io/api/image/3/context.json"),
            id,
            service_type: String::from_str("ImageService3"),
            protocol: String::from_str("http://iiif.io/api/image"),
            profile: String::from_str("level2"),
            width,
            height,
            extra_features,
        };
        assert(info@.extra_features =~= info_of(id@, width, height).extra_features);
        info
    }
}

} // verus!
