//! The hosted browser plugin's lifecycle: which of its four extension points
//! to call for each host event, and the loader's first-map update hook.

use vstd::prelude::*;
use crate::paths::owned;

verus! {

/// An extension point of the loaded plugin.
#[derive(PartialEq, Eq, Structural, Clone, Copy, Debug)]
pub enum HostCall {
    Init,
    Free,
    Reset,
    OnNewMap,
    OnNewMapLoaded,
}

/// What the loader does when a map has finished loading.
#[derive(PartialEq, Eq, Structural, Clone, Copy, Debug)]
pub enum MapLoaded {
    /// The first map of the process: run the update session, then load the
    /// plugin on the main thread and replay `Init`, `OnNewMap` and
    /// `OnNewMapLoaded` to it.
    StartSession,
    /// Forward the event to the plugin, if one is loaded.
    Forward(Option<HostCall>),
}

/// Why the plugin library could not be used.
#[derive(PartialEq, Eq, Structural, Clone, Copy, Debug)]
pub enum LoadError {
    /// Loading the library or finding its component gave no address.
    Null,
}

/// The loader's view of the plugin: whether its library and its component
/// are loaded, and whether a map has loaded before.
#[derive(PartialEq, Eq, Structural, Clone, Copy, Debug)]
pub struct PluginHost {
    pub library_loaded: bool,
    pub plugin_loaded: bool,
    pub map_seen: bool,
}

impl PluginHost {
    pub fn new() -> (r: Self)
        ensures
            !r.library_loaded,
            !r.plugin_loaded,
            !r.map_seen,
    {
        PluginHost { library_loaded: false, plugin_loaded: false, map_seen: false }
    }
}

/// An address from the platform's library loader: the null address is a
/// failure.
pub fn ptr_result(addr: usize) -> (r: Result<usize, LoadError>)
    ensures
        addr == 0 ==> r == Err::<usize, LoadError>(LoadError::Null),
        addr != 0 ==> r == Ok::<usize, LoadError>(addr),
{
    if addr == 0 {
        Err(LoadError::Null)
    } else {
        Ok(addr)
    }
}

/// After an attempt to load the plugin: on success the plugin is held and
/// its `Init` is called; on failure nothing is held.
pub fn init(host: &mut PluginHost, loaded: bool) -> (r: Option<HostCall>)
    ensures
        final(host).map_seen == old(host).map_seen,
        final(host).library_loaded == (old(host).library_loaded || loaded),
        final(host).plugin_loaded == (old(host).plugin_loaded || loaded),
        r == if loaded {
            Some(HostCall::Init)
        } else {
            None::<HostCall>
        },
{
    if loaded {
        host.library_loaded = true;
        host.plugin_loaded = true;
        Some(HostCall::Init)
    } else {
        None
    }
}

/// Releases the plugin: its `Free` is called if it is held, and both the
/// plugin and its library are let go.
pub fn free(host: &mut PluginHost) -> (r: Option<HostCall>)
    ensures
        !final(host).plugin_loaded,
        !final(host).library_loaded,
        final(host).map_seen == old(host).map_seen,
        r == if old(host).plugin_loaded {
            Some(HostCall::Free)
        } else {
            None::<HostCall>
        },
{
    let r = if host.plugin_loaded {
        Some(HostCall::Free)
    } else {
        None
    };
    host.plugin_loaded = false;
    host.library_loaded = false;
    r
}

fn forward(host: &PluginHost, call: HostCall) -> (r: Option<HostCall>)
    ensures
        r == if host.plugin_loaded {
            Some(call)
        } else {
            None::<HostCall>
        },
{
    if host.plugin_loaded {
        Some(call)
    } else {
        None
    }
}

/// Forwards a state reset to the plugin, if one is held.
pub fn reset(host: &PluginHost) -> (r: Option<HostCall>)
    ensures
        r == if host.plugin_loaded {
            Some(HostCall::Reset)
        } else {
            None::<HostCall>
        },
{
    forward(host, HostCall::Reset)
}

/// Forwards the start of a map load to the plugin, if one is held.
pub fn on_new_map(host: &PluginHost) -> (r: Option<HostCall>)
    ensures
        r == if host.plugin_loaded {
            Some(HostCall::OnNewMap)
        } else {
            None::<HostCall>
        },
{
    forward(host, HostCall::OnNewMap)
}

/// The first loaded map starts the update session; later ones are
/// forwarded to the plugin.
pub fn on_new_map_loaded(host: &mut PluginHost) -> (r: MapLoaded)
    ensures
        final(host).map_seen,
        final(host).plugin_loaded == old(host).plugin_loaded,
        final(host).library_loaded == old(host).library_loaded,
        !old(host).map_seen ==> r == MapLoaded::StartSession,
        old(host).map_seen ==> r == MapLoaded::Forward(
            if old(host).plugin_loaded {
                Some(HostCall::OnNewMapLoaded)
            } else {
                None::<HostCall>
            },
        ),
{
    if host.map_seen {
        MapLoaded::Forward(forward(host, HostCall::OnNewMapLoaded))
    } else {
        host.map_seen = true;
        MapLoaded::StartSession
    }
}

/// A library search path with `extra` added at its end: `current`, the
/// separator, then `extra`; or `extra` alone where no path was set.
pub fn extend_search_path(current: &Option<String>, sep: &str, extra: &str) -> (r: String)
    ensures
        r@ == match current {
            Some(c) => c@ + sep@ + extra@,
            None => extra@,
        },
{
    match current {
        Some(c) => {
            let mut r = c.clone();
            r.append(sep);
            r.append(extra);
            r
        },
        None => owned(extra),
    }
}

} // verus!
