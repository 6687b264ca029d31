//! MCP servers between the shared configuration and Cursor.

use crate::cursor_config::{mcp_servers, set_mcp_servers_map, should_sync_cursor_files};
use crate::json::{member_of, JsonValue};
use crate::str_map::{
    distinct_keys, first_with, lemma_entry_found, lemma_map_push, lemma_map_update, map_of, StrMap,
};
use vstd::prelude::*;

verus! {

/// The applications in which a server is enabled.
#[derive(Debug)]
pub struct McpApps {
    pub cursor: bool,
    /// The names of the other applications.
    pub others: Vec<String>,
}

/// A server of the shared configuration.
#[derive(Debug)]
pub struct McpServer {
    pub id: String,
    pub name: String,
    pub server: JsonValue,
    pub apps: McpApps,
    pub description: Option<String>,
    pub homepage: Option<String>,
    pub docs: Option<String>,
    pub tags: Vec<String>,
}

/// A server definition from Cursor's file, and whether it is a valid one.
#[derive(Debug)]
pub struct CheckedSpec {
    pub spec: JsonValue,
    pub valid: bool,
}

/// A server of the shared configuration, and whether its definition is a valid
/// one.
#[derive(Debug)]
pub struct CheckedServer {
    pub server: McpServer,
    pub valid: bool,
}

/// The server, enabled in Cursor, with everything else as it was.
pub open spec fn enabled(server: McpServer) -> McpServer {
    McpServer { apps: McpApps { cursor: true, ..server.apps }, ..server }
}

/// Whether the server is a new one for the given definition: named after its
/// id, enabled in Cursor alone, without any description.
pub open spec fn is_fresh(server: McpServer, id: Seq<char>, spec: JsonValue) -> bool {
    &&& server.id@ == id
    &&& server.name@ == id
    &&& server.server == spec
    &&& server.apps.cursor
    &&& server.apps.others@.len() == 0
    &&& server.description is None
    &&& server.homepage is None
    &&& server.docs is None
    &&& server.tags@.len() == 0
}

/// The servers of the shared configuration; no servers where there is no list.
pub open spec fn server_map(servers: Option<StrMap<McpServer>>) -> Map<Seq<char>, McpServer> {
    match servers {
        Some(map) => map@,
        None => Map::empty(),
    }
}

/// Whether Cursor's file holds a valid definition under the id.
pub open spec fn offers(incoming: Map<Seq<char>, CheckedSpec>, id: Seq<char>) -> bool {
    incoming.contains_key(id) && incoming[id].valid
}

/// Whether importing the definition changes the shared configuration: it is
/// valid, and not enabled in Cursor yet.
pub open spec fn brings_change(
    servers: Map<Seq<char>, McpServer>,
    entry: (String, CheckedSpec),
) -> bool {
    entry.1.valid && !(servers.contains_key(entry.0@) && servers[entry.0@].apps.cursor)
}

/// How many definitions change the shared configuration.
pub open spec fn changes(
    servers: Map<Seq<char>, McpServer>,
    incoming: Seq<(String, CheckedSpec)>,
) -> nat {
    incoming.filter(|entry: (String, CheckedSpec)| brings_change(servers, entry)).len()
}

/// Whether `after` is `before` with every valid definition imported: what was
/// there is enabled in Cursor, what was not is added, and all else is kept.
pub open spec fn is_import(
    before: Map<Seq<char>, McpServer>,
    incoming: Map<Seq<char>, CheckedSpec>,
    after: Map<Seq<char>, McpServer>,
) -> bool {
    forall|id: Seq<char>|
        {
            &&& #[trigger] after.contains_key(id) == (before.contains_key(id) || offers(
                incoming,
                id,
            ))
            &&& before.contains_key(id) ==> after[id] == if offers(incoming, id) {
                enabled(before[id])
            } else {
                before[id]
            }
            &&& !before.contains_key(id) && offers(incoming, id) ==> is_fresh(
                after[id],
                id,
                incoming[id].spec,
            )
        }
}

/// Whether a document is Cursor's file with the given servers and nothing else.
pub open spec fn is_mcp_document(
    document: JsonValue,
    servers: Map<Seq<char>, JsonValue>,
) -> bool {
    &&& document matches JsonValue::Object(map) && map@.dom() == set!["mcpServers"@]
    &&& document.member("mcpServers"@) matches Some(JsonValue::Object(map)) && map@ == servers
}

/// The definitions of the servers that are enabled in Cursor and valid.
pub open spec fn enabled_servers(servers: Map<Seq<char>, CheckedServer>) -> Map<
    Seq<char>,
    JsonValue,
> {
    Map::new(
        |id: Seq<char>|
            servers.contains_key(id) && servers[id].server.apps.cursor && servers[id].valid,
        |id: Seq<char>| servers[id].server.server,
    )
}

/// Whether Cursor's files are kept in step.
pub fn should_sync(dir_exists: bool, mcp_file_exists: bool) -> (r: bool)
    ensures
        r == (dir_exists || mcp_file_exists),
{
    should_sync_cursor_files(dir_exists, mcp_file_exists)
}

/// Brings the servers of Cursor's file into the shared configuration, and says
/// how many of them changed it.
pub fn import_from_cursor(
    ready: bool,
    servers: &mut Option<StrMap<McpServer>>,
    incoming: StrMap<CheckedSpec>,
) -> (r: usize)
    requires
        incoming.wf(),
    ensures
        !ready || incoming.entries().len() == 0 ==> r == 0 && *final(servers) == *old(servers),
        ready && incoming.entries().len() > 0 ==> {
            &&& *final(servers) is Some
            &&& is_import(server_map(*old(servers)), incoming@, server_map(*final(servers)))
            &&& r == changes(server_map(*old(servers)), incoming.entries())
        },
        (*old(servers) matches Some(map) ==> map.wf()) ==> (*final(servers) matches Some(map)
            ==> map.wf()),
{
    if !ready || incoming.is_empty() {
        return 0;
    }
    let ghost before = server_map(*old(servers));
    let ghost all = incoming.entries();
    let mut map: StrMap<McpServer> = match servers.take() {
        Some(map) => map,
        None => StrMap::new(),
    };
    let ghost was_wf = map.wf();
    let mut entries: Vec<(String, CheckedSpec)> = incoming.into_entries();
    let total: usize = entries.len();
    let mut changed: usize = 0;
    let ghost mut done: int = 0;
    proof {
        reveal(Seq::filter);
        assert(all.skip(0) =~= all);
        assert(all.take(0) =~= Seq::<(String, CheckedSpec)>::empty());
        assert(is_import(before, map_of(all.take(0)), map@));
    }
    while entries.len() > 0
        invariant
            distinct_keys(all),
            0 <= done <= all.len(),
            entries@ == all.skip(done),
            is_import(before, map_of(all.take(done)), map@),
            changed == all.take(done).filter(
                |entry: (String, CheckedSpec)| brings_change(before, entry),
            ).len(),
            changed <= done,
            total == all.len(),
            was_wf ==> map.wf(),
        decreases entries@.len(),
    {
        let ghost now = map@;
        let ghost entry = all[done];
        proof {
            assert(entries@[0] == entry);
            assert(all.skip(done).remove(0) =~= all.skip(done + 1));
            assert(all.take(done + 1) =~= all.take(done).push(entry));
            all.take(done).lemma_filter_push(
                entry,
                |entry: (String, CheckedSpec)| brings_change(before, entry),
            );
            lemma_map_push(all.take(done), entry);
        }
        let (id, checked): (String, CheckedSpec) = entries.remove(0);
        if checked.valid {
            match map.position(id.as_str()) {
                Some(i) => {
                    if !map.value_at(i).apps.cursor {
                        let ghost old_entries = map.entries();
                        map.value_at_mut(i).apps.cursor = true;
                        proof {
                            let (key, server) = old_entries[i as int];
                            lemma_map_update(old_entries, i as int, (key, enabled(server)));
                            assert(map@ == now.insert(id@, enabled(now[id@])));
                        }
                        changed += 1;
                    } else {
                        assert(enabled(now[id@]) == now[id@]);
                        assert(map@ =~= now.insert(id@, now[id@]));
                    }
                },
                None => {
                    let fresh = McpServer {
                        id: id.clone(),
                        name: id.clone(),
                        server: checked.spec,
                        apps: McpApps { cursor: true, others: Vec::new() },
                        description: None,
                        homepage: None,
                        docs: None,
                        tags: Vec::new(),
                    };
                    map.insert(id, fresh);
                    changed += 1;
                },
            }
        }
        proof {
            lemma_import_step(before, map_of(all.take(done)), entry, now, map@);
            done = done + 1;
        }
    }
    proof {
        assert(all.take(done) =~= all);
    }
    *servers = Some(map);
    changed
}

/// The document of Cursor's file with one server put in; nothing is written
/// where Cursor's files are not kept in step.
pub fn sync_single_server_to_cursor(
    ready: bool,
    current: StrMap<JsonValue>,
    id: &str,
    server_spec: JsonValue,
) -> (r: Option<JsonValue>)
    ensures
        r is Some == ready,
        ready ==> is_mcp_document(r->0, current@.insert(id@, server_spec)),
{
    if !ready {
        return None;
    }
    let mut servers: StrMap<JsonValue> = current;
    servers.insert(id.to_string(), server_spec);
    Some(set_mcp_servers_map(servers))
}

/// The document of Cursor's file with one server taken out; nothing is written
/// where Cursor's files are not kept in step.
pub fn remove_server_from_cursor(ready: bool, current: StrMap<JsonValue>, id: &str) -> (r: Option<
    JsonValue,
>)
    ensures
        r is Some == ready,
        ready ==> is_mcp_document(r->0, current@.remove(id@)),
{
    if !ready {
        return None;
    }
    let mut servers: StrMap<JsonValue> = current;
    servers.remove(id);
    Some(set_mcp_servers_map(servers))
}

/// The document of Cursor's file that holds all servers that are enabled in
/// Cursor and valid; nothing is written where Cursor's files are not kept in
/// step, or where there is no list of servers.
pub fn sync_enabled_to_cursor(ready: bool, servers: Option<StrMap<CheckedServer>>) -> (r: Option<
    JsonValue,
>)
    requires
        servers matches Some(map) ==> map.wf(),
    ensures
        r is Some == (ready && servers is Some),
        r is Some ==> is_mcp_document(r->0, enabled_servers(servers->0@)),
{
    if !ready {
        return None;
    }
    let mut entries: Vec<(String, CheckedServer)> = match servers {
        Some(map) => map.into_entries(),
        None => {
            return None;
        },
    };
    let ghost all = entries@;
    let mut enabled: StrMap<JsonValue> = StrMap::new();
    let ghost mut done: int = 0;
    proof {
        assert(all.skip(0) =~= all);
        assert(enabled@ =~= enabled_servers(map_of(all.take(0))));
    }
    while entries.len() > 0
        invariant
            distinct_keys(all),
            0 <= done <= all.len(),
            entries@ == all.skip(done),
            enabled@ == enabled_servers(map_of(all.take(done))),
        decreases entries@.len(),
    {
        let ghost entry = all[done];
        proof {
            assert(entries@[0] == entry);
            assert(all.skip(done).remove(0) =~= all.skip(done + 1));
            assert(all.take(done + 1) =~= all.take(done).push(entry));
            lemma_map_push(all.take(done), entry);
        }
        let (id, checked): (String, CheckedServer) = entries.remove(0);
        if checked.server.apps.cursor && checked.valid {
            enabled.insert(id, checked.server.server);
        }
        proof {
            assert(enabled@ =~= enabled_servers(map_of(all.take(done + 1))));
            done = done + 1;
        }
    }
    assert(all.take(done) =~= all);
    Some(set_mcp_servers_map(enabled))
}

proof fn lemma_import_step(
    before: Map<Seq<char>, McpServer>,
    incoming: Map<Seq<char>, CheckedSpec>,
    entry: (String, CheckedSpec),
    now: Map<Seq<char>, McpServer>,
    next: Map<Seq<char>, McpServer>,
)
    requires
        is_import(before, incoming, now),
        !incoming.contains_key(entry.0@),
        !entry.1.valid ==> next == now,
        entry.1.valid ==> next == now.insert(entry.0@, next[entry.0@]),
        entry.1.valid && now.contains_key(entry.0@) ==> next[entry.0@] == enabled(now[entry.0@]),
        entry.1.valid && !now.contains_key(entry.0@) ==> is_fresh(
            next[entry.0@],
            entry.0@,
            entry.1.spec,
        ),
    ensures
        is_import(before, incoming.insert(entry.0@, entry.1), next),
{
    let more = incoming.insert(entry.0@, entry.1);
    assert forall|id: Seq<char>|
        {
            &&& #[trigger] next.contains_key(id) == (before.contains_key(id) || offers(more, id))
            &&& before.contains_key(id) ==> next[id] == if offers(more, id) {
                enabled(before[id])
            } else {
                before[id]
            }
            &&& !before.contains_key(id) && offers(more, id) ==> is_fresh(
                next[id],
                id,
                more[id].spec,
            )
        } by {
        assert(now.contains_key(id) == (before.contains_key(id) || offers(incoming, id)));
    }
}

/// What is put into Cursor's file or taken out of it is read back so, and the
/// other servers are read back as they were.
pub proof fn law_file_reads_back(
    current: Map<Seq<char>, JsonValue>,
    id: Seq<char>,
    spec: JsonValue,
    other: Seq<char>,
    with: JsonValue,
    without: JsonValue,
)
    requires
        is_mcp_document(with, current.insert(id, spec)),
        is_mcp_document(without, current.remove(id)),
        other != id,
    ensures
        mcp_servers(Some(with)).contains_key(id),
        mcp_servers(Some(with))[id] == spec,
        !mcp_servers(Some(without)).contains_key(id),
        mcp_servers(Some(with)).contains_key(other) == current.contains_key(other),
        mcp_servers(Some(without)).contains_key(other) == current.contains_key(other),
        current.contains_key(other) ==> mcp_servers(Some(with))[other] == current[other]
            && mcp_servers(Some(without))[other] == current[other],
{
}

/// An import takes nothing away and disables nothing: every server stays, with
/// the same definition and the same other applications, and is enabled in
/// Cursor if it was.
pub proof fn law_import_keeps_servers(
    before: Map<Seq<char>, McpServer>,
    incoming: Map<Seq<char>, CheckedSpec>,
    after: Map<Seq<char>, McpServer>,
    id: Seq<char>,
)
    requires
        is_import(before, incoming, after),
        before.contains_key(id),
    ensures
        after.contains_key(id),
        after[id].server == before[id].server,
        after[id].apps.others == before[id].apps.others,
        before[id].apps.cursor ==> after[id] == before[id],
        !offers(incoming, id) ==> after[id] == before[id],
{
    assert(after.contains_key(id));
}

/// Importing the same servers again changes nothing.
pub proof fn law_import_twice_is_import_once(
    before: Map<Seq<char>, McpServer>,
    incoming: Seq<(String, CheckedSpec)>,
    after: Map<Seq<char>, McpServer>,
    again: Map<Seq<char>, McpServer>,
)
    requires
        distinct_keys(incoming),
        is_import(before, map_of(incoming), after),
        is_import(after, map_of(incoming), again),
    ensures
        again == after,
        changes(after, incoming) == 0,
{
    let offered = map_of(incoming);
    assert forall|id: Seq<char>| #[trigger] again.contains_key(id) == after.contains_key(id) && (
    after.contains_key(id) ==> again[id] == after[id]) by {
        assert(after.contains_key(id) == (before.contains_key(id) || offers(offered, id)));
        assert(again.contains_key(id) == (after.contains_key(id) || offers(offered, id)));
        if offers(offered, id) {
            assert(after[id].apps.cursor);
            assert(enabled(after[id]) == after[id]);
        }
    }
    assert(again =~= after);
    assert forall|i: int| 0 <= i < incoming.len() implies !brings_change(
        after,
        #[trigger] incoming[i],
    ) by {
        let (key, checked) = incoming[i];
        lemma_entry_found(incoming, i);
        if checked.valid {
            assert(offers(offered, key@));
            assert(after.contains_key(key@));
        }
    }
    lemma_filter_none(incoming, |entry: (String, CheckedSpec)| brings_change(after, entry));
}

/// A valid server of Cursor's file is among those that are written back to it
/// after an import.
pub proof fn law_imported_servers_are_exported(
    before: Map<Seq<char>, McpServer>,
    incoming: Map<Seq<char>, CheckedSpec>,
    after: Map<Seq<char>, McpServer>,
    checked: Map<Seq<char>, CheckedServer>,
    id: Seq<char>,
)
    requires
        is_import(before, incoming, after),
        offers(incoming, id),
        checked.contains_key(id),
        checked[id].server == after[id],
        checked[id].valid,
    ensures
        enabled_servers(checked).contains_key(id),
        enabled_servers(checked)[id] == after[id].server,
        !before.contains_key(id) ==> enabled_servers(checked)[id] == incoming[id].spec,
{
    assert(after.contains_key(id));
}

proof fn lemma_filter_none(
    entries: Seq<(String, CheckedSpec)>,
    keep: spec_fn((String, CheckedSpec)) -> bool,
)
    requires
        forall|i: int| 0 <= i < entries.len() ==> !keep(#[trigger] entries[i]),
    ensures
        entries.filter(keep).len() == 0,
    decreases entries.len(),
{
    reveal(Seq::filter);
    if entries.len() > 0 {
        lemma_filter_none(entries.drop_last(), keep);
    }
}

/// A valid definition that is new becomes a server of that name which is
/// enabled in Cursor and nowhere else; one that is not valid becomes none.
pub proof fn law_new_servers_come_from_the_file(
    before: Map<Seq<char>, McpServer>,
    incoming: Map<Seq<char>, CheckedSpec>,
    after: Map<Seq<char>, McpServer>,
    id: Seq<char>,
)
    requires
        is_import(before, incoming, after),
        !before.contains_key(id),
    ensures
        after.contains_key(id) <==> incoming.contains_key(id) && incoming[id].valid,
        after.contains_key(id) ==> {
            &&& after[id].id@ == id
            &&& after[id].name@ == id
            &&& after[id].server == incoming[id].spec
            &&& after[id].apps.cursor
            &&& after[id].apps.others@.len() == 0
            &&& after[id].description is None
            &&& after[id].homepage is None
            &&& after[id].docs is None
            &&& after[id].tags@.len() == 0
        },
{
    assert(after.contains_key(id) == offers(incoming, id));
}

/// A server that was there is enabled in Cursor by a valid definition, and left
/// as it is by any other; nothing else about it changes either way, not even
/// its definition.
pub proof fn law_known_servers_are_only_enabled(
    before: Map<Seq<char>, McpServer>,
    incoming: Map<Seq<char>, CheckedSpec>,
    after: Map<Seq<char>, McpServer>,
    id: Seq<char>,
)
    requires
        is_import(before, incoming, after),
        before.contains_key(id),
    ensures
        after.contains_key(id),
        after[id].apps.cursor <==> before[id].apps.cursor || (incoming.contains_key(id)
            && incoming[id].valid),
        after[id].id == before[id].id,
        after[id].name == before[id].name,
        after[id].server == before[id].server,
        after[id].apps.others == before[id].apps.others,
        after[id].description == before[id].description,
        after[id].homepage == before[id].homepage,
        after[id].docs == before[id].docs,
        after[id].tags == before[id].tags,
{
    assert(after.contains_key(id));
}

/// One more definition counts as a change exactly if it is valid and its server
/// is missing or not enabled in Cursor.
pub proof fn law_what_counts_as_a_change(
    servers: Map<Seq<char>, McpServer>,
    incoming: Seq<(String, CheckedSpec)>,
    next: (String, CheckedSpec),
)
    ensures
        changes(servers, Seq::empty()) == 0,
        changes(servers, incoming.push(next)) == changes(servers, incoming) + if next.1.valid && (
        !servers.contains_key(next.0@) || !servers[next.0@].apps.cursor) {
            1int
        } else {
            0
        },
{
    incoming.lemma_filter_push(next, |entry: (String, CheckedSpec)| brings_change(servers, entry));
    reveal(Seq::filter);
}

/// An import that counts no change leaves the servers as they were.
pub proof fn law_no_change_is_counted_where_nothing_changes(
    before: Map<Seq<char>, McpServer>,
    incoming: Seq<(String, CheckedSpec)>,
    after: Map<Seq<char>, McpServer>,
)
    requires
        distinct_keys(incoming),
        is_import(before, map_of(incoming), after),
    ensures
        changes(before, incoming) == 0 <==> after == before,
{
    let offered = map_of(incoming);
    let keep = |entry: (String, CheckedSpec)| brings_change(before, entry);
    if changes(before, incoming) == 0 {
        assert forall|id: Seq<char>| #[trigger] after.contains_key(id) == before.contains_key(id)
            && (before.contains_key(id) ==> after[id] == before[id]) by {
            assert(after.contains_key(id) == (before.contains_key(id) || offers(offered, id)));
            if offers(offered, id) {
                let i = lemma_offer_stands(incoming, id);
                if keep(incoming[i]) {
                    lemma_filter_some(incoming, keep, i);
                }
                assert(before.contains_key(id) && before[id].apps.cursor);
                assert(enabled(before[id]) == before[id]);
            }
        }
        assert(after =~= before);
    }
    if after == before {
        assert forall|i: int| 0 <= i < incoming.len() implies !keep(#[trigger] incoming[i]) by {
            let (key, checked) = incoming[i];
            lemma_entry_found(incoming, i);
            if checked.valid {
                assert(offers(offered, key@));
                assert(after.contains_key(key@));
                assert(before.contains_key(key@));
                assert(after[key@].apps.cursor);
            }
        }
        lemma_filter_none(incoming, keep);
    }
}

proof fn lemma_offer_stands(incoming: Seq<(String, CheckedSpec)>, id: Seq<char>) -> (i: int)
    requires
        map_of(incoming).contains_key(id),
    ensures
        0 <= i < incoming.len(),
        incoming[i].0@ == id,
        map_of(incoming)[id] == incoming[i].1,
    decreases incoming.len(),
{
    if incoming[0].0@ == id {
        0
    } else {
        assert(first_with(incoming.drop_first(), id) is Some);
        assert(map_of(incoming.drop_first()).contains_key(id));
        1 + lemma_offer_stands(incoming.drop_first(), id)
    }
}

proof fn lemma_filter_some(
    entries: Seq<(String, CheckedSpec)>,
    keep: spec_fn((String, CheckedSpec)) -> bool,
    i: int,
)
    requires
        0 <= i < entries.len(),
        keep(entries[i]),
    ensures
        entries.filter(keep).len() > 0,
    decreases entries.len(),
{
    reveal(Seq::filter);
    if i < entries.len() - 1 {
        lemma_filter_some(entries.drop_last(), keep, i);
    }
}

/// A server is written to Cursor's file exactly if it is enabled in Cursor and
/// valid, with its own definition.
pub proof fn law_which_servers_are_written(
    servers: Map<Seq<char>, CheckedServer>,
    document: JsonValue,
    id: Seq<char>,
)
    requires
        is_mcp_document(document, enabled_servers(servers)),
    ensures
        member_of(document.member("mcpServers"@), id) is Some <==> servers.contains_key(id)
            && servers[id].server.apps.cursor && servers[id].valid,
        member_of(document.member("mcpServers"@), id) matches Some(spec) ==> spec
            == servers[id].server.server,
{
}

/// Cursor's file holds nothing but the servers.
pub proof fn law_file_holds_only_servers(
    document: JsonValue,
    servers: Map<Seq<char>, JsonValue>,
    key: Seq<char>,
)
    requires
        is_mcp_document(document, servers),
    ensures
        document.member(key) is Some <==> key == "mcpServers"@,
{
    if let JsonValue::Object(map) = document {
        assert(map@.dom().contains(key) == set!["mcpServers"@].contains(key));
    }
}

} // verus!
