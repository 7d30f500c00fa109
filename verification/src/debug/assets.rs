//! The vendored scripts of the debug pages.
use vstd::prelude::*;

use crate::text::same;

verus! {

/// Path of the htmx script.
pub const HTMX_URL: &'static str = "/debug/assets/htmx-2.0.10.min.js";

/// Path of the vis-network script.
pub const VIS_NETWORK_URL: &'static str = "/debug/assets/vis-network-10.1.2.min.js";

/// Content type of the scripts.
pub const JS: &'static str = "text/javascript; charset=utf-8";

/// Caching of the scripts: their names carry their versions.
pub const CACHE: &'static str = "public, max-age=31536000, immutable";

/// A vendored script.
#[derive(Clone, Copy, Debug, PartialEq, Eq, Structural)]
pub enum Asset {
    Htmx,
    VisNetwork,
}

/// The script of a name. Serving is a closed list: no other name leads anywhere.
pub open spec fn asset_named(name: Seq<char>) -> Option<Asset> {
    if name == "htmx-2.0.10.min.js"@ {
        Some(Asset::Htmx)
    } else if name == "vis-network-10.1.2.min.js"@ {
        Some(Asset::VisNetwork)
    } else {
        None
    }
}

/// The script of a name.
pub fn asset(name: &str) -> (r: Option<Asset>)
    ensures
        r == asset_named(name@),
{
    if same(name, "htmx-2.0.10.min.js") {
        Some(Asset::Htmx)
    } else if same(name, "vis-network-10.1.2.min.js") {
        Some(Asset::VisNetwork)
    } else {
        None
    }
}

} // verus!
