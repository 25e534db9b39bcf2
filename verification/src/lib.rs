//! The core of an IIIF Image API server, verified with Verus.
//!
//! A request names an image and, in four path segments, a region, a size,
//! a rotation and a quality with a format. This library reads such
//! requests, derives the keys under which their tiles are cached, and
//! decides what the cache, the resolver and the image backend are asked
//! to do, and in which order.
//!
//! The library touches no file, no socket and no image. What has to be
//! done outside is handed back as an action; the caller carries it out
//! and reports what came of it:
//!
//! - [`server`] takes a path apart and leads a request from the search
//!   for its source to the answer;
//! - [`cache`] derives keys and leads the lookups and stores of the two
//!   tiers;
//! - [`resolver`] leads the search for a source, locally and at a remote
//!   origin;
//! - [`processor`] names the operation of each stage of the transform
//!   pipeline.
//!
//! [`iiif`] holds the request model and its grammar, [`number`] and
//! [`scaling`] the decimal numbers of a request and their whole parts,
//! [`digits`] and [`text`] what the parsers share, and [`config`] the
//! configured values.

pub mod cache;
pub mod config;
pub mod digits;
pub mod iiif;
pub mod number;
pub mod processor;
pub mod resolver;
pub mod scaling;
pub mod server;
pub mod text;
