//! What resolutions come to in a world of files and an origin: a model of
//! both, and the laws of the resolver over it.

use crate::config::Config;
use crate::resolver::{
    is_success, local_of, proxy_of, resolve_after, url_of, LocationView, Report, Resolve,
    ResolveActionView,
};
use vstd::prelude::*;

verus! {

/// The files that exist, and the status with which the origin answers a
/// URL; it does not answer the URLs that are missing here.
pub struct World {
    pub files: Set<LocationView>,
    pub origin: Map<Seq<char>, u16>,
}

/// How `action` goes in `world`.
pub open spec fn report_of(world: World, action: ResolveActionView) -> Report {
    match action {
        ResolveActionView::CheckFile(at) => Report::Exists(world.files.contains(at)),
        ResolveActionView::Get(url) => if world.origin.contains_key(url) {
            Report::Status(world.origin[url])
        } else {
            Report::Failed
        },
        ResolveActionView::Save(_) => Report::Saved,
        ResolveActionView::Finish(_) => Report::Nothing,
    }
}

/// The world once `action` is carried out: a saved file exists.
pub open spec fn world_after(world: World, action: ResolveActionView) -> World {
    match action {
        ResolveActionView::Save(at) => World { files: world.files.insert(at), origin: world.origin },
        _ => world,
    }
}

/// How a resolution ended: the world then, where the source lies, and how
/// often the origin was asked.
pub struct ResolveRun {
    pub world: World,
    pub result: Option<LocationView>,
    pub fetches: nat,
}

/// A resolution of `identifier` that stands in `state` and has just been
/// told `report`, carried on in `world` for at most `turns` more turns.
pub open spec fn resolve_from(
    config: Config,
    identifier: Seq<char>,
    world: World,
    state: Resolve,
    report: Report,
    turns: nat,
) -> ResolveRun
    decreases turns,
{
    let (next, action) = resolve_after(config, identifier, state, report);
    match action {
        ResolveActionView::Finish(result) => ResolveRun { world, result, fetches: 0 },
        _ => if turns == 0 {
            ResolveRun { world, result: None, fetches: 0 }
        } else {
            let rest = resolve_from(
                config,
                identifier,
                world_after(world, action),
                next,
                report_of(world, action),
                (turns - 1) as nat,
            );
            ResolveRun {
                world: rest.world,
                result: rest.result,
                fetches: rest.fetches + (if action is Get {
                    1nat
                } else {
                    0nat
                }),
            }
        },
    }
}

/// A whole resolution of `identifier` in `world`. No resolution takes more
/// than five turns.
pub open spec fn resolution(config: Config, identifier: Seq<char>, world: World) -> ResolveRun {
    resolve_from(config, identifier, world, Resolve::Start, Report::Nothing, 5)
}

/// Whether the origin answers for `identifier` with success.
pub open spec fn origin_has(config: Config, identifier: Seq<char>, world: World) -> bool {
    world.origin.contains_key(url_of(config, identifier)) && is_success(
        world.origin[url_of(config, identifier)],
    )
}

/// What a resolution comes to: the local file where it exists; else
/// nothing where no origin is configured; else the proxy file where it
/// exists; else, after one request to the origin, the proxy file that was
/// written, or nothing where the origin did not answer with success. Only
/// in that one case a file is added, and the origin is asked at most once.
pub proof fn lemma_resolution(config: Config, identifier: Seq<char>, world: World)
    ensures
        ({
            let run = resolution(config, identifier, world);
            let local = local_of(config, identifier);
            let proxy = proxy_of(config, identifier);
            if world.files.contains(local) {
                run == (ResolveRun { world, result: Some(local), fetches: 0 })
            } else if config.remote is None {
                run == (ResolveRun { world, result: None, fetches: 0 })
            } else if world.files.contains(proxy) {
                run == (ResolveRun { world, result: Some(proxy), fetches: 0 })
            } else if origin_has(config, identifier, world) {
                run == (ResolveRun {
                    world: World { files: world.files.insert(proxy), origin: world.origin },
                    result: Some(proxy),
                    fetches: 1,
                })
            } else {
                run == (ResolveRun { world, result: None, fetches: 1 })
            }
        }),
{
    reveal_with_fuel(resolve_from, 6);
}

/// Fetch once: where only the origin has the source, the first resolution
/// asks it exactly once and ends at the proxy file; a second resolution,
/// of the same identifier or of another page of it, asks the origin no
/// more and ends at the same file.
pub proof fn lemma_fetch_once(
    config: Config,
    identifier: Seq<char>,
    again: Seq<char>,
    world: World,
)
    requires
        config.remote is Some,
        !world.files.contains(local_of(config, identifier)),
        !world.files.contains(proxy_of(config, identifier)),
        origin_has(config, identifier, world),
        local_of(config, again) == local_of(config, identifier),
    ensures
        resolution(config, identifier, world).fetches == 1,
        resolution(config, identifier, world).result == Some(proxy_of(config, identifier)),
        resolution(config, again, resolution(config, identifier, world).world).fetches == 0,
        resolution(config, again, resolution(config, identifier, world).world).result == Some(
            proxy_of(config, identifier),
        ),
{
    lemma_resolution(config, identifier, world);
    lemma_resolution(config, again, resolution(config, identifier, world).world);
}

/// Not found: a source that neither directory holds and that the origin,
/// if there is one, does not answer for with success is found nowhere, and
/// no file is written.
pub proof fn lemma_absent_is_not_found(config: Config, identifier: Seq<char>, world: World)
    requires
        !world.files.contains(local_of(config, identifier)),
        config.remote is Some ==> !world.files.contains(proxy_of(config, identifier))
            && !origin_has(config, identifier, world),
    ensures
        resolution(config, identifier, world).result is None,
        resolution(config, identifier, world).world == world,
{
    lemma_resolution(config, identifier, world);
}

} // verus!
