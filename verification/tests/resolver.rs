use rust_iiif::config::{Config, RemoteConfig, Settings};
use rust_iiif::resolver::{Location, Report, Resolve, ResolveAction, Resolver};
use std::collections::{HashMap, HashSet};

fn settings() -> Settings {
    Settings {
        port: None,
        host: None,
        source_dir: Some("/images".to_string()),
        base_url: None,
        memory_limit: None,
        disk_cache_dir: None,
        disk_limit: None,
        remote: None,
    }
}

fn local_only() -> Resolver {
    Resolver::new(Config::load(settings()))
}

fn with_remote() -> Resolver {
    let mut found = settings();
    found.remote = Some(RemoteConfig {
        base_url: "https://origin.example/bucket/".to_string(),
        local_proxy_dir: "/proxy".to_string(),
    });
    Resolver::new(Config::load(found))
}

/// Files and an origin, and a count of the requests to the origin.
struct World {
    files: HashSet<(String, String)>,
    origin: HashMap<String, u16>,
    fetches: usize,
}

impl World {
    fn new() -> World {
        World { files: HashSet::new(), origin: HashMap::new(), fetches: 0 }
    }

    fn resolve(&mut self, resolver: &Resolver, identifier: &str) -> Option<(String, String)> {
        let mut state = Resolve::Start;
        let mut report = Report::Nothing;
        for _ in 0..6 {
            let turn = resolver.resolve(identifier, state, report);
            state = turn.state;
            report = match turn.action {
                ResolveAction::CheckFile(at) => Report::Exists(self.files.contains(&(at.dir, at.name))),
                ResolveAction::Get(url) => {
                    self.fetches += 1;
                    match self.origin.get(&url) {
                        Some(status) => Report::Status(*status),
                        None => Report::Failed,
                    }
                }
                ResolveAction::Save(at) => {
                    self.files.insert((at.dir, at.name));
                    Report::Saved
                }
                ResolveAction::Finish(at) => return at.map(|l| (l.dir, l.name)),
            };
        }
        panic!("the resolution did not end");
    }
}

fn is_at(action: &ResolveAction, dir: &str, name: &str) -> bool {
    match action {
        ResolveAction::CheckFile(Location { dir: d, name: n })
        | ResolveAction::Save(Location { dir: d, name: n })
        | ResolveAction::Finish(Some(Location { dir: d, name: n })) => d == dir && n == name,
        _ => false,
    }
}

#[test]
fn the_local_directory_is_looked_into_first() {
    let turn = with_remote().resolve("doc.pdf:page:2", Resolve::Start, Report::Nothing);
    assert_eq!(turn.state, Resolve::Local);
    assert!(matches!(turn.action, ResolveAction::CheckFile(_)));
    assert!(is_at(&turn.action, "/images", "doc.pdf"));
}

#[test]
fn a_local_file_ends_the_resolution() {
    let turn = with_remote().resolve("photo.jpg", Resolve::Local, Report::Exists(true));
    assert_eq!(turn.state, Resolve::Done);
    assert!(matches!(turn.action, ResolveAction::Finish(Some(_))));
    assert!(is_at(&turn.action, "/images", "photo.jpg"));
}

#[test]
fn without_an_origin_a_local_miss_is_the_end() {
    let turn = local_only().resolve("photo.jpg", Resolve::Local, Report::Exists(false));
    assert_eq!(turn.state, Resolve::Done);
    assert!(matches!(turn.action, ResolveAction::Finish(None)));
}

#[test]
fn with_an_origin_the_proxy_directory_comes_next() {
    let turn = with_remote().resolve("a/photo.jpg:page:1", Resolve::Local, Report::Exists(false));
    assert_eq!(turn.state, Resolve::Proxy);
    assert!(matches!(turn.action, ResolveAction::CheckFile(_)));
    assert!(is_at(&turn.action, "/proxy", "a/photo.jpg"));
}

#[test]
fn a_proxy_file_ends_the_resolution() {
    let turn = with_remote().resolve("photo.jpg", Resolve::Proxy, Report::Exists(true));
    assert_eq!(turn.state, Resolve::Done);
    assert!(matches!(turn.action, ResolveAction::Finish(Some(_))));
    assert!(is_at(&turn.action, "/proxy", "photo.jpg"));
}

#[test]
fn a_proxy_miss_asks_the_origin_for_the_base_name() {
    let turn = with_remote().resolve("doc.pdf:page:2", Resolve::Proxy, Report::Exists(false));
    assert_eq!(turn.state, Resolve::Fetch);
    assert!(matches!(turn.action, ResolveAction::Get(url) if url == "https://origin.example/bucket/doc.pdf"));
}

#[test]
fn a_successful_answer_is_saved_to_the_proxy_directory() {
    for status in [200, 204, 299] {
        let turn = with_remote().resolve("photo.jpg", Resolve::Fetch, Report::Status(status));
        assert_eq!(turn.state, Resolve::Save);
        assert!(matches!(turn.action, ResolveAction::Save(_)));
        assert!(is_at(&turn.action, "/proxy", "photo.jpg"));
    }
    let turn = with_remote().resolve("photo.jpg", Resolve::Save, Report::Saved);
    assert_eq!(turn.state, Resolve::Done);
    assert!(matches!(turn.action, ResolveAction::Finish(Some(_))));
    assert!(is_at(&turn.action, "/proxy", "photo.jpg"));
}

#[test]
fn any_other_answer_is_a_miss() {
    for report in [
        Report::Status(199),
        Report::Status(300),
        Report::Status(301),
        Report::Status(404),
        Report::Status(500),
        Report::Failed,
        Report::Nothing,
    ] {
        let turn = with_remote().resolve("photo.jpg", Resolve::Fetch, report);
        assert_eq!(turn.state, Resolve::Done);
        assert!(matches!(turn.action, ResolveAction::Finish(None)));
    }
}

#[test]
fn a_failed_write_is_a_miss() {
    let turn = with_remote().resolve("photo.jpg", Resolve::Save, Report::Failed);
    assert_eq!(turn.state, Resolve::Done);
    assert!(matches!(turn.action, ResolveAction::Finish(None)));
}

#[test]
fn an_ended_resolution_stays_ended() {
    let turn = with_remote().resolve("photo.jpg", Resolve::Done, Report::Exists(true));
    assert_eq!(turn.state, Resolve::Done);
    assert!(matches!(turn.action, ResolveAction::Finish(None)));
}

#[test]
fn the_origin_is_asked_once() {
    let resolver = with_remote();
    let mut world = World::new();
    world.origin.insert("https://origin.example/bucket/doc.pdf".to_string(), 200);
    let proxy = Some(("/proxy".to_string(), "doc.pdf".to_string()));
    assert_eq!(world.resolve(&resolver, "doc.pdf:page:2"), proxy);
    assert_eq!(world.fetches, 1);
    assert_eq!(world.resolve(&resolver, "doc.pdf:page:2"), proxy);
    assert_eq!(world.fetches, 1);
    assert_eq!(world.resolve(&resolver, "doc.pdf:page:5"), proxy);
    assert_eq!(world.resolve(&resolver, "doc.pdf"), proxy);
    assert_eq!(world.fetches, 1);
}

#[test]
fn a_local_file_wins_over_the_origin() {
    let resolver = with_remote();
    let mut world = World::new();
    world.files.insert(("/images".to_string(), "photo.jpg".to_string()));
    world.origin.insert("https://origin.example/bucket/photo.jpg".to_string(), 200);
    assert_eq!(world.resolve(&resolver, "photo.jpg"), Some(("/images".to_string(), "photo.jpg".to_string())));
    assert_eq!(world.fetches, 0);
}

#[test]
fn an_identifier_that_is_nowhere_is_not_found() {
    let mut world = World::new();
    assert_eq!(world.resolve(&local_only(), "missing.jpg"), None);
    assert_eq!(world.fetches, 0);
    world.origin.insert("https://origin.example/bucket/missing.jpg".to_string(), 404);
    assert_eq!(world.resolve(&with_remote(), "missing.jpg"), None);
    assert_eq!(world.fetches, 1);
    assert_eq!(world.resolve(&with_remote(), "unknown.jpg"), None);
    assert_eq!(world.fetches, 2);
    assert!(world.files.is_empty());
}
