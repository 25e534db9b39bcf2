//! The resolver: where the source of an identifier is looked for, and
//! when it is fetched from the remote origin.
//!
//! Files and the network are not part of this library. A caller starts in
//! the state [`Resolve::Start`], carries out each action that
//! [`Resolver::resolve`] hands back, and reports how it went, until the
//! action is [`ResolveAction::Finish`].

pub mod model;

use crate::config::Config;
use crate::iiif::identifier::{base_identifier, base_of};
use vstd::prelude::*;
use vstd::string::StringExecFns;

verus! {

/// A file: its name under a directory.
#[derive(Debug)]
pub struct Location {
    pub dir: String,
    pub name: String,
}

/// What a [`Location`] says.
pub struct LocationView {
    pub dir: Seq<char>,
    pub name: Seq<char>,
}

impl View for Location {
    type V = LocationView;

    open spec fn view(&self) -> LocationView {
        LocationView { dir: self.dir@, name: self.name@ }
    }
}

/// What the caller is to do.
#[derive(Debug)]
pub enum ResolveAction {
    /// See whether this file exists.
    CheckFile(Location),
    /// Request this URL with GET.
    Get(String),
    /// Write the body of the response to this file, creating the
    /// directories above it where they are missing.
    Save(Location),
    /// Nothing more: the source lies here, or there is none.
    Finish(Option<Location>),
}

/// What a [`ResolveAction`] says.
pub enum ResolveActionView {
    CheckFile(LocationView),
    Get(Seq<char>),
    Save(LocationView),
    Finish(Option<LocationView>),
}

impl View for ResolveAction {
    type V = ResolveActionView;

    open spec fn view(&self) -> ResolveActionView {
        match self {
            ResolveAction::CheckFile(at) => ResolveActionView::CheckFile(at@),
            ResolveAction::Get(url) => ResolveActionView::Get(url@),
            ResolveAction::Save(at) => ResolveActionView::Save(at@),
            ResolveAction::Finish(Some(at)) => ResolveActionView::Finish(Some(at@)),
            ResolveAction::Finish(None) => ResolveActionView::Finish(None),
        }
    }
}

/// How the action before went.
#[derive(Clone, Copy, Debug, PartialEq, Eq, Structural)]
pub enum Report {
    /// Nothing was done yet.
    Nothing,
    /// The file exists, or it does not.
    Exists(bool),
    /// The origin answered with this status code.
    Status(u16),
    /// The body was written.
    Saved,
    /// The request or the write failed.
    Failed,
}

/// How far a resolution has come.
#[derive(Clone, Copy, Debug, PartialEq, Eq, Structural)]
pub enum Resolve {
    /// Nothing was asked yet.
    Start,
    /// The local source directory was looked into.
    Local,
    /// The proxy directory was looked into.
    Proxy,
    /// The origin was asked.
    Fetch,
    /// The body was to be written.
    Save,
    /// The resolution has ended.
    Done,
}

/// One turn of a resolution: the state it is in now, and what to do next.
#[derive(Debug)]
pub struct ResolveTurn {
    pub state: Resolve,
    pub action: ResolveAction,
}

/// Whether an HTTP status code stands for success: 200 to 299.
pub open spec fn is_success(status: u16) -> bool {
    200 <= status && status < 300
}

/// Where `identifier` lies if the local source directory has it.
pub open spec fn local_of(config: Config, identifier: Seq<char>) -> LocationView {
    LocationView { dir: config.iiif.source_dir@, name: base_of(identifier) }
}

/// Where `identifier` lies once it was fetched from the origin. Meant for
/// a configuration with a remote origin.
pub open spec fn proxy_of(config: Config, identifier: Seq<char>) -> LocationView {
    LocationView { dir: config.remote->0.local_proxy_dir@, name: base_of(identifier) }
}

/// The URL of `identifier` at the origin: the origin's prefix, then the
/// identifier without its page selector. Meant for a configuration with a
/// remote origin.
pub open spec fn url_of(config: Config, identifier: Seq<char>) -> Seq<char> {
    config.remote->0.base_url@ + base_of(identifier)
}

/// What a resolution in `state` does when the action before went as
/// `report` says, and the state it is in then.
///
/// The local source directory comes first. Without a remote origin a miss
/// there ends the resolution. With one, the proxy directory comes next,
/// and only on a miss there the origin is asked; what it answers with
/// success is written to the proxy directory, and the resolution ends
/// there. Any failure ends it with nothing.
pub open spec fn resolve_after(
    config: Config,
    identifier: Seq<char>,
    state: Resolve,
    report: Report,
) -> (Resolve, ResolveActionView) {
    let nothing = (Resolve::Done, ResolveActionView::Finish(None));
    match state {
        Resolve::Start => (
            Resolve::Local,
            ResolveActionView::CheckFile(local_of(config, identifier)),
        ),
        Resolve::Local => if report == Report::Exists(true) {
            (Resolve::Done, ResolveActionView::Finish(Some(local_of(config, identifier))))
        } else if config.remote is Some {
            (Resolve::Proxy, ResolveActionView::CheckFile(proxy_of(config, identifier)))
        } else {
            nothing
        },
        Resolve::Proxy => if config.remote is None {
            nothing
        } else if report == Report::Exists(true) {
            (Resolve::Done, ResolveActionView::Finish(Some(proxy_of(config, identifier))))
        } else {
            (Resolve::Fetch, ResolveActionView::Get(url_of(config, identifier)))
        },
        Resolve::Fetch => if config.remote is None {
            nothing
        } else {
            match report {
                Report::Status(status) => if is_success(status) {
                    (Resolve::Save, ResolveActionView::Save(proxy_of(config, identifier)))
                } else {
                    nothing
                },
                _ => nothing,
            }
        },
        Resolve::Save => if config.remote is Some && report == Report::Saved {
            (Resolve::Done, ResolveActionView::Finish(Some(proxy_of(config, identifier))))
        } else {
            nothing
        },
        Resolve::Done => nothing,
    }
}

/// Finds the source of an identifier.
#[derive(Debug)]
pub struct Resolver {
    pub config: Config,
}

impl Resolver {
    pub fn new(config: Config) -> (resolver: Resolver)
        ensures
            resolver.config == config,
    {
        Resolver { config }
    }

    fn local(&self, identifier: &str) -> (at: Location)
        ensures
            at@ == local_of(self.config, identifier@),
    {
        Location { dir: self.config.iiif.source_dir.clone(), name: base_identifier(identifier) }
    }

    fn proxy(&self, identifier: &str) -> (at: Location)
        requires
            self.config.remote is Some,
        ensures
            at@ == proxy_of(self.config, identifier@),
    {
        match &self.config.remote {
            Some(remote) => Location {
                dir: remote.local_proxy_dir.clone(),
                name: base_identifier(identifier),
            },
            None => Location { dir: String::new(), name: String::new() },
        }
    }

    fn url(&self, identifier: &str) -> (url: String)
        requires
            self.config.remote is Some,
        ensures
            url@ == url_of(self.config, identifier@),
    {
        match &self.config.remote {
            Some(remote) => {
                let base = base_identifier(identifier);
                let mut url = remote.base_url.clone();
                url.append(base.as_str());
                url
            },
            None => String::new(),
        }
    }

    /// The next turn of the resolution of `identifier` in `state`, when the
    /// action before went as `report` says.
    pub fn resolve(&self, identifier: &str, state: Resolve, report: Report) -> (turn: ResolveTurn)
        ensures
            (turn.state, turn.action@) == resolve_after(self.config, identifier@, state, report),
    {
        let remote = self.config.remote.is_some();
        let nothing = ResolveTurn { state: Resolve::Done, action: ResolveAction::Finish(None) };
        match state {
            Resolve::Start => ResolveTurn {
                state: Resolve::Local,
                action: ResolveAction::CheckFile(self.local(identifier)),
            },
            Resolve::Local => if report == Report::Exists(true) {
                ResolveTurn {
                    state: Resolve::Done,
                    action: ResolveAction::Finish(Some(self.local(identifier))),
                }
            } else if remote {
                ResolveTurn {
                    state: Resolve::Proxy,
                    action: ResolveAction::CheckFile(self.proxy(identifier)),
                }
            } else {
                nothing
            },
            Resolve::Proxy => if !remote {
                nothing
            } else if report == Report::Exists(true) {
                ResolveTurn {
                    state: Resolve::Done,
                    action: ResolveAction::Finish(Some(self.proxy(identifier))),
                }
            } else {
                ResolveTurn { state: Resolve::Fetch, action: ResolveAction::Get(self.url(identifier)) }
            },
            Resolve::Fetch => if !remote {
                nothing
            } else {
                match report {
                    Report::Status(status) => if 200 <= status && status < 300 {
                        ResolveTurn {
                            state: Resolve::Save,
                            action: ResolveAction::Save(self.proxy(identifier)),
                        }
                    } else {
                        nothing
                    },
                    _ => nothing,
                }
            },
            Resolve::Save => if remote && report == Report::Saved {
                ResolveTurn {
                    state: Resolve::Done,
                    action: ResolveAction::Finish(Some(self.proxy(identifier))),
                }
            } else {
                nothing
            },
            Resolve::Done => nothing,
        }
    }
}

} // verus!
