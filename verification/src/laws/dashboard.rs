//! What the dashboard is for: the configuration in effect, and whether the schema is the expected one.
use vstd::prelude::*;

use crate::debug::assets::{asset_named, Asset, HTMX_URL, VIS_NETWORK_URL};
use crate::debug::dashboard::{
    applied_says, context_entries, labelled_rows, note, tag_rows, DebugContext, Entry,
};
use crate::debug::html::escape;
use crate::debug::rollups::TagEntry;
use crate::numbers::decimal;

verus! {

/// Each value of the configuration stands under its own label.
pub proof fn each_value_stands_under_its_label(c: DebugContext)
    ensures
        context_entries(Some(c)).contains(("server.transport"@, c.transport@)),
        context_entries(Some(c)).contains(("server.host"@, c.bind_host@)),
        context_entries(Some(c)).contains(("server.port"@, decimal(c.bind_port as nat))),
        context_entries(Some(c)).contains(("database.data_dir"@, c.data_dir@)),
        context_entries(Some(c)).contains(
            ("cluster.merge_threshold"@, c.cluster_merge_threshold@),
        ),
        context_entries(Some(c)).contains(
            (
                "cluster.maintenance_interval_secs"@,
                decimal(c.maintenance_interval_secs as nat),
            ),
        ),
        context_entries(Some(c)).contains(("embedding.model (config file)"@, c.embedding_model@)),
        context_entries(Some(c)).contains(("embedding.device (config file)"@, c.embedding_device@)),
{
    let e = context_entries(Some(c));
    assert(e[0] == ("server.transport"@, c.transport@));
    assert(e[1] == ("server.host"@, c.bind_host@));
    assert(e[2] == ("server.port"@, decimal(c.bind_port as nat)));
    assert(e[3] == ("database.data_dir"@, c.data_dir@));
    assert(e[4] == ("cluster.merge_threshold"@, c.cluster_merge_threshold@));
    assert(e[5] == (
        "cluster.maintenance_interval_secs"@,
        decimal(c.maintenance_interval_secs as nat),
    ));
    assert(e[6] == ("embedding.model (config file)"@, c.embedding_model@));
    assert(e[7] == ("embedding.device (config file)"@, c.embedding_device@));
}

/// The version of the schema is shown as it was read, and where it was not, that and why.
pub proof fn the_schema_version_is_shown_as_read(version: String, err: String, head: Seq<char>)
    ensures
        applied_says(Ok(Some(version))) == version@,
        applied_says(Ok(None)) == "not recorded"@,
        applied_says(Err(err)) == "unreadable ("@ + err@ + ")"@,
        version@ != head ==> note(Ok(Some(version)), head)
            == "SCHEMA DRIFT: the database is at version "@ + version@
            + " but this binary expects version "@ + head
            + ". Migrations are pending — the server may be running a schema it does not fully understand."@,
        note(Ok(Some(version)), version@).len() == 0,
{
    reveal_strlit("");
}

/// Every entry of the configuration and every tag is written, in order, its text escaped.
pub proof fn every_entry_is_written(rows: Seq<Entry>, tags: Seq<TagEntry>)
    ensures
        rows.len() > 0 ==> labelled_rows(rows) == labelled_rows(rows.drop_last()) + (
        "<tr><th>"@ + escape(rows.last().0) + "</th><td>"@ + escape(rows.last().1) + "</td></tr>"@),
        tags.len() > 0 ==> tag_rows(tags) == tag_rows(tags.drop_last()) + "<tr>"@ + ("<td>"@
            + escape(tags.last().0) + "</td>"@) + ("<td>"@ + escape(decimal(tags.last().1))
            + "</td>"@) + "</tr>"@,
{
}

/// Only the two scripts that the pages load are served, each by its own name.
pub proof fn only_the_two_scripts_are_served(name: Seq<char>)
    ensures
        asset_named("htmx-2.0.10.min.js"@) == Some(Asset::Htmx),
        asset_named("vis-network-10.1.2.min.js"@) == Some(Asset::VisNetwork),
        asset_named(name) is Some ==> name == "htmx-2.0.10.min.js"@ || name
            == "vis-network-10.1.2.min.js"@,
{
    reveal_strlit("htmx-2.0.10.min.js");
    reveal_strlit("vis-network-10.1.2.min.js");
    assert("htmx-2.0.10.min.js"@.len() != "vis-network-10.1.2.min.js"@.len());
}

/// Without a context every value is shown as unavailable, in the same words, under the same labels.
pub proof fn labels_do_not_depend_on_the_context(c: DebugContext, i: int)
    requires
        0 <= i < context_entries(Some(c)).len(),
    ensures
        context_entries(None).len() == context_entries(Some(c)).len(),
        context_entries(None)[i].0 == context_entries(Some(c))[i].0,
        context_entries(None)[i].1 == "unavailable outside HTTP mode"@,
{
}

/// The pages load the scripts from where they are served.
pub proof fn scripts_are_loaded_from_where_they_are_served(name: Seq<char>)
    ensures
        "/debug/assets/"@ + name == HTMX_URL@ ==> asset_named(name) == Some(Asset::Htmx),
        "/debug/assets/"@ + name == VIS_NETWORK_URL@ ==> asset_named(name) == Some(Asset::VisNetwork),
{
    reveal_strlit("/debug/assets/");
    reveal_strlit("htmx-2.0.10.min.js");
    reveal_strlit("vis-network-10.1.2.min.js");
    reveal_strlit("/debug/assets/htmx-2.0.10.min.js");
    reveal_strlit("/debug/assets/vis-network-10.1.2.min.js");
    let whole = "/debug/assets/"@ + name;
    assert(name =~= whole.skip(14));
    if whole == HTMX_URL@ {
        assert(whole.skip(14) =~= "htmx-2.0.10.min.js"@);
    }
    if whole == VIS_NETWORK_URL@ {
        assert(whole.skip(14) =~= "vis-network-10.1.2.min.js"@);
        assert("htmx-2.0.10.min.js"@.len() != "vis-network-10.1.2.min.js"@.len());
    }
}

} // verus!
