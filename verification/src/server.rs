//! The request handlers: how a path is taken apart, how its segments
//! become a request, and what is done in which order to answer it.
//!
//! The cache tiers, the resolver's files and the image backend are not
//! part of this library. A caller starts a handler in its `Start` state,
//! carries out each action that the handler hands back, and reports what
//! came of it, until the action is a response.

use crate::cache::{key_of, params_of, TileCache};
use crate::iiif::info::{info_of, ImageInfo, ImageInfoView};
use crate::processor::{target_of, ImageProcessor};
use crate::iiif::parser::{
    format_of, parse_format, parse_quality, parse_region, parse_rotation, parse_size, quality_of,
    region_of, rotation_of, size_of,
};
use crate::iiif::types::{ImageRequest, ImageRequestView};
use crate::text::{
    chars_of, join, join_first, lemma_join_split, spells, split, split_on, text_of,
};
use vstd::prelude::*;
use vstd::slice::slice_to_vec;
use vstd::string::StringExecFns;

verus! {

/// Why a request was not answered with an image or a descriptor.
#[derive(Clone, Copy, Debug, PartialEq, Eq, Structural)]
pub enum Failure {
    /// The path has neither the shape of an image request nor that of a
    /// descriptor request.
    InvalidRequest,
    /// The last segment is not a quality and a format around one dot.
    InvalidQualityFormat,
    /// One of the five segments is outside its grammar.
    InvalidParameters,
    /// The identifier has no source.
    NotFound,
    /// The backend could not open the source or carry out a transform.
    ProcessingFailed,
    /// The backend could not open the source to measure it.
    InfoFailed,
}

impl Failure {
    /// The HTTP status of the failure: 400 for a malformed request, 404
    /// for a missing source, 500 for a failure of the backend.
    pub open spec fn status_of(self) -> u16 {
        match self {
            Failure::InvalidRequest
            | Failure::InvalidQualityFormat
            | Failure::InvalidParameters => 400,
            Failure::NotFound => 404,
            Failure::ProcessingFailed | Failure::InfoFailed => 500,
        }
    }

    /// The text that goes with the failure.
    pub open spec fn message_of(self) -> Seq<char> {
        match self {
            Failure::InvalidRequest => "Invalid IIIF request"@,
            Failure::InvalidQualityFormat => "Invalid quality.format"@,
            Failure::InvalidParameters => "Invalid IIIF parameters"@,
            Failure::NotFound => "Image not found"@,
            Failure::ProcessingFailed => "Image processing failed"@,
            Failure::InfoFailed => "Failed to get image info"@,
        }
    }

    /// The HTTP status of the failure.
    pub fn status(&self) -> (status: u16)
        ensures
            status == self.status_of(),
    {
        match self {
            Failure::InvalidRequest
            | Failure::InvalidQualityFormat
            | Failure::InvalidParameters => 400,
            Failure::NotFound => 404,
            Failure::ProcessingFailed | Failure::InfoFailed => 500,
        }
    }

    /// The text that goes with the failure.
    pub fn message(&self) -> (message: &'static str)
        ensures
            message@ == self.message_of(),
    {
        match self {
            Failure::InvalidRequest => "Invalid IIIF request",
            Failure::InvalidQualityFormat => "Invalid quality.format",
            Failure::InvalidParameters => "Invalid IIIF parameters",
            Failure::NotFound => "Image not found",
            Failure::ProcessingFailed => "Image processing failed",
            Failure::InfoFailed => "Failed to get image info",
        }
    }
}

/// What a path asks for.
#[derive(Debug)]
pub enum Route {
    /// The descriptor of an image.
    Info { identifier: String },
    /// An image; the four segments are as they were written.
    Image {
        identifier: String,
        region: String,
        size: String,
        rotation: String,
        quality_format: String,
    },
}

/// What a [`Route`] says.
pub enum RouteView {
    Info { identifier: Seq<char> },
    Image {
        identifier: Seq<char>,
        region: Seq<char>,
        size: Seq<char>,
        rotation: Seq<char>,
        quality_format: Seq<char>,
    },
}

impl View for Route {
    type V = RouteView;

    open spec fn view(&self) -> RouteView {
        match self {
            Route::Info { identifier } => RouteView::Info { identifier: identifier@ },
            Route::Image { identifier, region, size, rotation, quality_format } => RouteView::Image {
                identifier: identifier@,
                region: region@,
                size: size@,
                rotation: rotation@,
                quality_format: quality_format@,
            },
        }
    }
}

/// What `path` asks for. The segments are counted from the end: a last
/// segment `info.json` asks for the descriptor of what stands before it;
/// else the last four segments are those of an image request, and at
/// least one more stands before them. The identifier is all that stands
/// before, slashes included. A path of fewer segments asks for nothing.
pub open spec fn route_of(path: Seq<char>) -> Option<RouteView> {
    let segments = split(path, '/');
    let n = segments.len() as int;
    if segments[n - 1] == "info.json"@ {
        Some(RouteView::Info { identifier: join(segments.take(n - 1), '/') })
    } else if n >= 5 {
        Some(
            RouteView::Image {
                identifier: join(segments.take(n - 4), '/'),
                region: segments[n - 4],
                size: segments[n - 3],
                rotation: segments[n - 2],
                quality_format: segments[n - 1],
            },
        )
    } else {
        None
    }
}

/// A route keeps the whole path: the identifier and the segments after it,
/// put together again with slashes, are the path. The four segments of an
/// image request hold no slash; an identifier may.
pub proof fn lemma_route_keeps_the_path(path: Seq<char>)
    ensures
        match route_of(path) {
            Some(RouteView::Info { identifier }) => path == "info.json"@ || path == identifier
                + seq!['/'] + "info.json"@,
            Some(RouteView::Image { identifier, region, size, rotation, quality_format }) => {
                &&& path == identifier + seq!['/'] + region + seq!['/'] + size + seq!['/']
                    + rotation + seq!['/'] + quality_format
                &&& !region.contains('/')
                &&& !size.contains('/')
                &&& !rotation.contains('/')
                &&& !quality_format.contains('/')
            },
            None => true,
        },
{
    lemma_join_split(path, '/');
    let segments = split(path, '/');
    let n = segments.len() as int;
    if segments[n - 1] == "info.json"@ {
        assert(segments.drop_last() == segments.take(n - 1));
    } else if n >= 5 {
        let s1 = segments.take(n - 1);
        let s2 = segments.take(n - 2);
        let s3 = segments.take(n - 3);
        let s4 = segments.take(n - 4);
        assert(segments.drop_last() == s1);
        assert(s1.drop_last() == s2);
        assert(s2.drop_last() == s3);
        assert(s3.drop_last() == s4);
        assert(join(segments, '/') == join(s1, '/') + seq!['/'] + segments[n - 1]);
        assert(join(s1, '/') == join(s2, '/') + seq!['/'] + segments[n - 2]);
        assert(join(s2, '/') == join(s3, '/') + seq!['/'] + segments[n - 3]);
        assert(join(s3, '/') == join(s4, '/') + seq!['/'] + segments[n - 4]);
    }
}

/// Takes the path of a request apart. A path that asks for nothing is an
/// invalid request.
pub fn handle_iiif(full_path: &str) -> (route: Result<Route, Failure>)
    ensures
        match route {
            Ok(r) => route_of(full_path@) == Some(r@),
            Err(e) => route_of(full_path@) is None && e == Failure::InvalidRequest,
        },
{
    let chars = chars_of(full_path);
    let segments = split_on(chars.as_slice(), '/');
    let n = segments.len();
    if spells(segments[n - 1].as_slice(), "info.json") {
        let identifier = join_first(&segments, n - 1, '/');
        return Ok(Route::Info { identifier: text_of(identifier.as_slice()) });
    }
    if n >= 5 {
        let identifier = join_first(&segments, n - 4, '/');
        return Ok(
            Route::Image {
                identifier: text_of(identifier.as_slice()),
                region: text_of(segments[n - 4].as_slice()),
                size: text_of(segments[n - 3].as_slice()),
                rotation: text_of(segments[n - 2].as_slice()),
                quality_format: text_of(segments[n - 1].as_slice()),
            },
        );
    }
    Err(Failure::InvalidRequest)
}

/// The request that five written segments make up, or why they make up
/// none: the last segment must be a quality and a format around exactly
/// one dot, and every segment must be within its grammar. There is no
/// partial success.
pub open spec fn request_of(
    identifier: Seq<char>,
    region: Seq<char>,
    size: Seq<char>,
    rotation: Seq<char>,
    quality_format: Seq<char>,
) -> Result<ImageRequestView, Failure> {
    let parts = split(quality_format, '.');
    if parts.len() != 2 {
        Err(Failure::InvalidQualityFormat)
    } else if region_of(region) is Some && size_of(size) is Some && rotation_of(rotation) is Some
        && quality_of(parts[0]) is Some && format_of(parts[1]) is Some {
        Ok(
            ImageRequestView {
                identifier,
                region: region_of(region)->0,
                size: size_of(size)->0,
                rotation: rotation_of(rotation)->0,
                quality: quality_of(parts[0])->0,
                format: format_of(parts[1])->0,
            },
        )
    } else {
        Err(Failure::InvalidParameters)
    }
}

/// Reads the segments of an image request.
pub fn parse_request(
    identifier: &str,
    region: &str,
    size: &str,
    rotation: &str,
    quality_format: &str,
) -> (request: Result<ImageRequest, Failure>)
    ensures
        match request {
            Ok(r) => request_of(identifier@, region@, size@, rotation@, quality_format@) == Ok::<
                ImageRequestView,
                Failure,
            >(r@),
            Err(e) => request_of(identifier@, region@, size@, rotation@, quality_format@) == Err::<
                ImageRequestView,
                Failure,
            >(e),
        },
{
    let chars = chars_of(quality_format);
    let parts = split_on(chars.as_slice(), '.');
    if parts.len() != 2 {
        return Err(Failure::InvalidQualityFormat);
    }
    let quality_text = text_of(parts[0].as_slice());
    let format_text = text_of(parts[1].as_slice());
    let region = parse_region(region);
    let size = parse_size(size);
    let rotation = parse_rotation(rotation);
    let quality = parse_quality(quality_text.as_str());
    let format = parse_format(format_text.as_str());
    match (region, size, rotation, quality, format) {
        (Some(region), Some(size), Some(rotation), Some(quality), Some(format)) => Ok(
            ImageRequest {
                identifier: String::from_str(identifier),
                region,
                size,
                rotation,
                quality,
                format,
            },
        ),
        _ => Err(Failure::InvalidParameters),
    }
}

/// The parameter string of a request, from its segments as they were
/// written.
pub fn cache_params(region: &str, size: &str, rotation: &str, quality: &str, format: &str) -> (params:
    String)
    ensures
        params@ == params_of(region@, size@, rotation@, quality@, format@),
{
    let mut params = String::from_str(region);
    params.push('/');
    params.append(size);
    params.push('/');
    params.append(rotation);
    params.push('/');
    params.append(quality);
    params.push('.');
    params.append(format);
    assert(params@ =~= params_of(region@, size@, rotation@, quality@, format@));
    params
}

/// The content type of an image response: `image/` and the format token
/// as it was written, whichever encoder was used.
pub open spec fn content_type_of(format: Seq<char>) -> Seq<char> {
    "image/"@ + format
}

/// The content type of an image response.
pub fn content_type(format: &str) -> (name: String)
    ensures
        name@ == content_type_of(format@),
{
    let mut name = String::from_str("image/");
    name.append(format);
    name
}

/// An image request that is ready to be served: the request, the key of
/// its tile and the content type of the response.
#[derive(Debug)]
pub struct ImageJob {
    pub request: ImageRequest,
    pub key: String,
    pub content_type: String,
}

/// What an [`ImageJob`] says.
pub struct ImageJobView {
    pub request: ImageRequestView,
    pub key: Seq<char>,
    pub content_type: Seq<char>,
}

impl View for ImageJob {
    type V = ImageJobView;

    open spec fn view(&self) -> ImageJobView {
        ImageJobView { request: self.request@, key: self.key@, content_type: self.content_type@ }
    }
}

/// The job that five written segments make up, or why they make up none.
/// The key is that of the identifier, page selector included, and of the
/// segments as they were written.
pub open spec fn job_of(
    identifier: Seq<char>,
    region: Seq<char>,
    size: Seq<char>,
    rotation: Seq<char>,
    quality_format: Seq<char>,
) -> Result<ImageJobView, Failure> {
    let parts = split(quality_format, '.');
    match request_of(identifier, region, size, rotation, quality_format) {
        Ok(request) => Ok(
            ImageJobView {
                request,
                key: key_of(identifier, params_of(region, size, rotation, parts[0], parts[1])),
                content_type: content_type_of(parts[1]),
            },
        ),
        Err(e) => Err(e),
    }
}

/// Makes the segments of an image request ready to be served.
pub fn plan_image(
    identifier: &str,
    region: &str,
    size: &str,
    rotation: &str,
    quality_format: &str,
) -> (job: Result<ImageJob, Failure>)
    ensures
        match job {
            Ok(j) => job_of(identifier@, region@, size@, rotation@, quality_format@) == Ok::<
                ImageJobView,
                Failure,
            >(j@),
            Err(e) => job_of(identifier@, region@, size@, rotation@, quality_format@) == Err::<
                ImageJobView,
                Failure,
            >(e),
        },
{
    let request = match parse_request(identifier, region, size, rotation, quality_format) {
        Ok(request) => request,
        Err(e) => {
            return Err(e);
        },
    };
    let chars = chars_of(quality_format);
    let parts = split_on(chars.as_slice(), '.');
    let quality = text_of(parts[0].as_slice());
    let format = text_of(parts[1].as_slice());
    let params = cache_params(region, size, rotation, quality.as_str(), format.as_str());
    Ok(
        ImageJob {
            request,
            key: TileCache::get_key(identifier, params.as_str()),
            content_type: content_type(format.as_str()),
        },
    )
}

/// An encoded image and its content type.
#[derive(Debug)]
pub struct Tile {
    pub content_type: String,
    pub data: Vec<u8>,
}

/// What a [`Tile`] says.
pub struct TileView {
    pub content_type: Seq<char>,
    pub data: Seq<u8>,
}

impl View for Tile {
    type V = TileView;

    open spec fn view(&self) -> TileView {
        TileView { content_type: self.content_type@, data: self.data@ }
    }
}

/// What came of the action before.
#[derive(Debug)]
pub enum Event {
    /// Nothing was done yet.
    Nothing,
    /// The cache had these bytes, or it had none.
    Cached(Option<Vec<u8>>),
    /// The source lies at this path, or there is none.
    Resolved(Option<String>),
    /// The backend made these bytes, or it failed.
    Processed(Option<Vec<u8>>),
    /// The backend measured the image, or it failed.
    Measured(Option<(u32, u32)>),
    /// The cache was given the tile.
    Stored,
}

/// What an [`Event`] says.
pub enum EventView {
    Nothing,
    Cached(Option<Seq<u8>>),
    Resolved(Option<Seq<char>>),
    Processed(Option<Seq<u8>>),
    Measured(Option<(u32, u32)>),
    Stored,
}

impl View for Event {
    type V = EventView;

    open spec fn view(&self) -> EventView {
        match self {
            Event::Nothing => EventView::Nothing,
            Event::Cached(Some(data)) => EventView::Cached(Some(data@)),
            Event::Cached(None) => EventView::Cached(None),
            Event::Resolved(Some(path)) => EventView::Resolved(Some(path@)),
            Event::Resolved(None) => EventView::Resolved(None),
            Event::Processed(Some(data)) => EventView::Processed(Some(data@)),
            Event::Processed(None) => EventView::Processed(None),
            Event::Measured(size) => EventView::Measured(*size),
            Event::Stored => EventView::Stored,
        }
    }
}

/// How far the handling of an image request has come.
#[derive(Debug)]
pub enum Serve {
    /// Nothing was done yet.
    Start,
    /// The resolver was asked for the source.
    Resolve,
    /// The source lies at this path, and the cache was asked for the tile.
    Lookup(String),
    /// The cache had none, and the backend was asked to make the tile.
    Process,
    /// The backend made these bytes, and the cache was given them.
    Store(Vec<u8>),
    /// The request was answered.
    Done,
}

/// What a [`Serve`] says.
pub enum ServeView {
    Start,
    Resolve,
    Lookup(Seq<char>),
    Process,
    Store(Seq<u8>),
    Done,
}

impl View for Serve {
    type V = ServeView;

    open spec fn view(&self) -> ServeView {
        match self {
            Serve::Start => ServeView::Start,
            Serve::Resolve => ServeView::Resolve,
            Serve::Lookup(path) => ServeView::Lookup(path@),
            Serve::Process => ServeView::Process,
            Serve::Store(data) => ServeView::Store(data@),
            Serve::Done => ServeView::Done,
        }
    }
}

/// What the caller is to do for an image request.
#[derive(Debug)]
pub enum ServeAction {
    /// Look this key up in the cache.
    LookUp(String),
    /// Resolve this identifier.
    Resolve(String),
    /// Run the pipeline of the job's request on the source at this path.
    Process(String),
    /// Store these bytes in the cache under this key.
    Store(String, Vec<u8>),
    /// Answer with this tile.
    Respond(Tile),
    /// Answer with this failure.
    Fail(Failure),
    /// Nothing: the request was answered before.
    Ended,
}

/// What a [`ServeAction`] says.
pub enum ServeActionView {
    LookUp(Seq<char>),
    Resolve(Seq<char>),
    Process(Seq<char>),
    Store(Seq<char>, Seq<u8>),
    Respond(TileView),
    Fail(Failure),
    Ended,
}

impl View for ServeAction {
    type V = ServeActionView;

    open spec fn view(&self) -> ServeActionView {
        match self {
            ServeAction::LookUp(key) => ServeActionView::LookUp(key@),
            ServeAction::Resolve(identifier) => ServeActionView::Resolve(identifier@),
            ServeAction::Process(path) => ServeActionView::Process(path@),
            ServeAction::Store(key, data) => ServeActionView::Store(key@, data@),
            ServeAction::Respond(tile) => ServeActionView::Respond(tile@),
            ServeAction::Fail(failure) => ServeActionView::Fail(*failure),
            ServeAction::Ended => ServeActionView::Ended,
        }
    }
}

/// One turn of the handling of an image request.
#[derive(Debug)]
pub struct ServeTurn {
    pub state: Serve,
    pub action: ServeAction,
}

/// What the handling of `job` in `state` does when `event` came of the
/// action before, and the state it is in then.
///
/// The source is resolved first; without a source the answer is
/// not-found, and neither the cache nor the backend is asked. Then the
/// cache is asked, and what it has is the answer. On a miss the backend
/// makes the tile of the source; if it fails, the answer is a processing
/// failure and nothing is stored. What it made is stored, and then it is
/// the answer.
pub open spec fn serve_after(job: ImageJobView, state: ServeView, event: EventView) -> (
    ServeView,
    ServeActionView,
) {
    match state {
        ServeView::Start => (ServeView::Resolve, ServeActionView::Resolve(job.request.identifier)),
        ServeView::Resolve => match event {
            EventView::Resolved(Some(path)) => (
                ServeView::Lookup(path),
                ServeActionView::LookUp(job.key),
            ),
            _ => (ServeView::Done, ServeActionView::Fail(Failure::NotFound)),
        },
        ServeView::Lookup(path) => match event {
            EventView::Cached(Some(data)) => (
                ServeView::Done,
                ServeActionView::Respond(TileView { content_type: job.content_type, data }),
            ),
            _ => (ServeView::Process, ServeActionView::Process(path)),
        },
        ServeView::Process => match event {
            EventView::Processed(Some(data)) => (
                ServeView::Store(data),
                ServeActionView::Store(job.key, data),
            ),
            _ => (ServeView::Done, ServeActionView::Fail(Failure::ProcessingFailed)),
        },
        ServeView::Store(data) => (
            ServeView::Done,
            ServeActionView::Respond(TileView { content_type: job.content_type, data }),
        ),
        ServeView::Done => (ServeView::Done, ServeActionView::Ended),
    }
}

/// The next turn of the handling of the image request `job` in `state`,
/// when `event` came of the action before.
pub fn get_image_logic(job: &ImageJob, state: Serve, event: Event) -> (turn: ServeTurn)
    ensures
        (turn.state@, turn.action@) == serve_after(job@, state@, event@),
{
    match state {
        Serve::Start => ServeTurn {
            state: Serve::Resolve,
            action: ServeAction::Resolve(job.request.identifier.clone()),
        },
        Serve::Resolve => match event {
            Event::Resolved(Some(path)) => ServeTurn {
                state: Serve::Lookup(path),
                action: ServeAction::LookUp(job.key.clone()),
            },
            _ => ServeTurn { state: Serve::Done, action: ServeAction::Fail(Failure::NotFound) },
        },
        Serve::Lookup(path) => match event {
            Event::Cached(Some(data)) => ServeTurn {
                state: Serve::Done,
                action: ServeAction::Respond(
                    Tile { content_type: job.content_type.clone(), data },
                ),
            },
            _ => ServeTurn { state: Serve::Process, action: ServeAction::Process(path) },
        },
        Serve::Process => match event {
            Event::Processed(Some(data)) => {
                let copy = slice_to_vec(data.as_slice());
                ServeTurn {
                    state: Serve::Store(data),
                    action: ServeAction::Store(job.key.clone(), copy),
                }
            },
            _ => ServeTurn {
                state: Serve::Done,
                action: ServeAction::Fail(Failure::ProcessingFailed),
            },
        },
        Serve::Store(data) => ServeTurn {
            state: Serve::Done,
            action: ServeAction::Respond(Tile { content_type: job.content_type.clone(), data }),
        },
        Serve::Done => ServeTurn { state: Serve::Done, action: ServeAction::Ended },
    }
}

/// What the cache, the resolver and the backend have for one request:
/// the tile that the cache holds, the path at which the source lies, and
/// the bytes that the backend makes of it; `None` for a miss, a missing
/// source and a failure.
pub struct Surroundings {
    pub cached: Option<Seq<u8>>,
    pub source: Option<Seq<char>>,
    pub product: Option<Seq<u8>>,
}

/// What comes of `action` in `surroundings`.
pub open spec fn event_of(surroundings: Surroundings, action: ServeActionView) -> EventView {
    match action {
        ServeActionView::LookUp(_) => EventView::Cached(surroundings.cached),
        ServeActionView::Resolve(_) => EventView::Resolved(surroundings.source),
        ServeActionView::Process(_) => EventView::Processed(surroundings.product),
        ServeActionView::Store(_, _) => EventView::Stored,
        _ => EventView::Nothing,
    }
}

/// How the handling of an image request ended: the answer, what was
/// stored in the cache under which key, and whether the cache was looked
/// into and the backend asked.
pub struct ServeRun {
    pub answer: Result<TileView, Failure>,
    pub stored: Option<(Seq<char>, Seq<u8>)>,
    pub looked_up: bool,
    pub processed: bool,
}

/// A handling that ends with `answer` and asks for nothing more.
pub open spec fn ended_with(answer: Result<TileView, Failure>) -> ServeRun {
    ServeRun { answer, stored: None, looked_up: false, processed: false }
}

/// The handling of `job` that stands in `state` and has just been told
/// `event`, carried on in `surroundings` for at most `turns` more turns.
pub open spec fn serve_from(
    job: ImageJobView,
    surroundings: Surroundings,
    state: ServeView,
    event: EventView,
    turns: nat,
) -> ServeRun
    decreases turns,
{
    let (next, action) = serve_after(job, state, event);
    match action {
        ServeActionView::Respond(tile) => ended_with(Ok(tile)),
        ServeActionView::Fail(failure) => ended_with(Err(failure)),
        ServeActionView::Ended => ended_with(Err(Failure::ProcessingFailed)),
        _ => if turns == 0 {
            ended_with(Err(Failure::ProcessingFailed))
        } else {
            let rest = serve_from(
                job,
                surroundings,
                next,
                event_of(surroundings, action),
                (turns - 1) as nat,
            );
            ServeRun {
                answer: rest.answer,
                stored: match action {
                    ServeActionView::Store(key, data) => Some((key, data)),
                    _ => rest.stored,
                },
                looked_up: rest.looked_up || action is LookUp,
                processed: rest.processed || action is Process,
            }
        },
    }
}

/// The whole handling of `job` in `surroundings`. No handling takes more
/// than five turns.
pub open spec fn serve(job: ImageJobView, surroundings: Surroundings) -> ServeRun {
    serve_from(job, surroundings, ServeView::Start, EventView::Nothing, 5)
}

/// What an image request comes to. A missing source is not-found,
/// whatever the cache holds: the cache is not looked into, the backend is
/// not asked and nothing is stored. Else a cached tile is the answer, and
/// the backend is not asked. Else a failure of the backend is a processing
/// failure and nothing is stored. Else what the backend made is stored
/// under the job's key and is the answer. The content type is always the
/// job's.
pub proof fn lemma_serve(job: ImageJobView, surroundings: Surroundings)
    ensures
        serve(job, surroundings) == (match surroundings.source {
            None => ServeRun {
                answer: Err(Failure::NotFound),
                stored: None,
                looked_up: false,
                processed: false,
            },
            Some(_) => match surroundings.cached {
                Some(data) => ServeRun {
                    answer: Ok(TileView { content_type: job.content_type, data }),
                    stored: None,
                    looked_up: true,
                    processed: false,
                },
                None => match surroundings.product {
                    None => ServeRun {
                        answer: Err(Failure::ProcessingFailed),
                        stored: None,
                        looked_up: true,
                        processed: true,
                    },
                    Some(data) => ServeRun {
                        answer: Ok(TileView { content_type: job.content_type, data }),
                        stored: Some((job.key, data)),
                        looked_up: true,
                        processed: true,
                    },
                },
            },
        }),
{
    reveal_with_fuel(serve_from, 6);
}

/// Not found: where the source is missing, the answer is not-found
/// whatever the cache holds and whatever the backend would make, and the
/// cache is neither looked into nor given anything.
pub proof fn lemma_absent_source_is_not_found(job: ImageJobView, surroundings: Surroundings)
    requires
        surroundings.source is None,
    ensures
        serve(job, surroundings).answer == Err::<TileView, Failure>(Failure::NotFound),
        serve(job, surroundings).stored is None,
        !serve(job, surroundings).looked_up,
        !serve(job, surroundings).processed,
{
    lemma_serve(job, surroundings);
}

/// How far the handling of a descriptor request has come.
#[derive(Clone, Copy, Debug, PartialEq, Eq, Structural)]
pub enum Describe {
    /// Nothing was done yet.
    Start,
    /// The resolver was asked for the source.
    Resolve,
    /// The backend was asked for the dimensions.
    Measure,
    /// The request was answered.
    Done,
}

/// What the caller is to do for a descriptor request.
#[derive(Debug)]
pub enum DescribeAction {
    /// Resolve this identifier.
    Resolve(String),
    /// Open this source and read its dimensions.
    Measure(String),
    /// Answer with this descriptor.
    Respond(ImageInfo),
    /// Answer with this failure.
    Fail(Failure),
    /// Nothing: the request was answered before.
    Ended,
}

/// What a [`DescribeAction`] says.
pub enum DescribeActionView {
    Resolve(Seq<char>),
    Measure(Seq<char>),
    Respond(ImageInfoView),
    Fail(Failure),
    Ended,
}

impl View for DescribeAction {
    type V = DescribeActionView;

    open spec fn view(&self) -> DescribeActionView {
        match self {
            DescribeAction::Resolve(identifier) => DescribeActionView::Resolve(identifier@),
            DescribeAction::Measure(target) => DescribeActionView::Measure(target@),
            DescribeAction::Respond(info) => DescribeActionView::Respond(info@),
            DescribeAction::Fail(failure) => DescribeActionView::Fail(*failure),
            DescribeAction::Ended => DescribeActionView::Ended,
        }
    }
}

/// One turn of the handling of a descriptor request.
#[derive(Debug)]
pub struct DescribeTurn {
    pub state: Describe,
    pub action: DescribeAction,
}

/// What the handling of a descriptor request for `identifier` in `state`
/// does when `event` came of the action before, and the state it is in
/// then.
///
/// The source is resolved; without one the answer is not-found. The
/// backend then measures what the identifier selects of the source; if it
/// fails, the answer is a failure of the backend. The descriptor carries
/// the dimensions and, as its id, the public base URL followed by the
/// identifier.
pub open spec fn describe_after(
    base_url: Seq<char>,
    identifier: Seq<char>,
    state: Describe,
    event: EventView,
) -> (Describe, DescribeActionView) {
    match state {
        Describe::Start => (Describe::Resolve, DescribeActionView::Resolve(identifier)),
        Describe::Resolve => match event {
            EventView::Resolved(Some(path)) => (
                Describe::Measure,
                DescribeActionView::Measure(target_of(path, identifier)),
            ),
            _ => (Describe::Done, DescribeActionView::Fail(Failure::NotFound)),
        },
        Describe::Measure => match event {
            EventView::Measured(Some(size)) => (
                Describe::Done,
                DescribeActionView::Respond(info_of(base_url + identifier, size.0, size.1)),
            ),
            _ => (Describe::Done, DescribeActionView::Fail(Failure::InfoFailed)),
        },
        Describe::Done => (Describe::Done, DescribeActionView::Ended),
    }
}

/// The next turn of the handling of a descriptor request for `identifier`
/// in `state`, when `event` came of the action before. `base_url` is the
/// public URL that identifiers are served under.
pub fn get_info_logic(base_url: &str, identifier: &str, state: Describe, event: Event) -> (turn:
    DescribeTurn)
    ensures
        (turn.state, turn.action@) == describe_after(base_url@, identifier@, state, event@),
{
    match state {
        Describe::Start => DescribeTurn {
            state: Describe::Resolve,
            action: DescribeAction::Resolve(String::from_str(identifier)),
        },
        Describe::Resolve => match event {
            Event::Resolved(Some(path)) => {
                let processor = ImageProcessor::new();
                DescribeTurn {
                    state: Describe::Measure,
                    action: DescribeAction::Measure(
                        processor.load_target(path.as_str(), identifier),
                    ),
                }
            },
            _ => DescribeTurn {
                state: Describe::Done,
                action: DescribeAction::Fail(Failure::NotFound),
            },
        },
        Describe::Measure => match event {
            Event::Measured(Some(size)) => {
                let mut id = String::from_str(base_url);
                id.append(identifier);
                DescribeTurn {
                    state: Describe::Done,
                    action: DescribeAction::Respond(ImageInfo::new(id, size.0, size.1)),
                }
            },
            _ => DescribeTurn {
                state: Describe::Done,
                action: DescribeAction::Fail(Failure::InfoFailed),
            },
        },
        Describe::Done => DescribeTurn { state: Describe::Done, action: DescribeAction::Ended },
    }
}

} // verus!
