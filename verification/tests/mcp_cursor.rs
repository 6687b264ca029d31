use cc_switch::cursor_config::read_mcp_servers_map;
use cc_switch::json::JsonValue;
use cc_switch::mcp_cursor::{
    import_from_cursor, remove_server_from_cursor, should_sync, sync_enabled_to_cursor,
    sync_single_server_to_cursor, CheckedServer, CheckedSpec, McpApps, McpServer,
};
use cc_switch::str_map::StrMap;

fn spec(n: u64) -> JsonValue {
    JsonValue::Unsigned(n)
}

fn server(id: &str, n: u64, cursor: bool) -> McpServer {
    McpServer {
        id: id.to_string(),
        name: format!("{id} name"),
        server: spec(n),
        apps: McpApps {
            cursor,
            others: vec!["codex".to_string()],
        },
        description: Some("d".to_string()),
        homepage: None,
        docs: None,
        tags: vec!["t".to_string()],
    }
}

fn incoming(entries: &[(&str, u64, bool)]) -> StrMap<CheckedSpec> {
    let mut map = StrMap::new();
    for (id, n, valid) in entries {
        map.insert(
            id.to_string(),
            CheckedSpec {
                spec: spec(*n),
                valid: *valid,
            },
        );
    }
    map
}

fn current(entries: &[(&str, u64)]) -> StrMap<JsonValue> {
    let mut map = StrMap::new();
    for (id, n) in entries {
        map.insert(id.to_string(), spec(*n));
    }
    map
}

#[test]
fn cursor_files_are_kept_in_step_where_cursor_is() {
    assert!(should_sync(true, true));
    assert!(should_sync(false, true));
    assert!(!should_sync(false, false));
}

#[test]
fn import_adds_enables_and_keeps() {
    let mut map = StrMap::new();
    map.insert("off".to_string(), server("off", 1, false));
    map.insert("on".to_string(), server("on", 2, true));
    map.insert("alone".to_string(), server("alone", 3, false));
    let mut servers = Some(map);
    let offer = [
        ("off", 11, true),
        ("on", 12, true),
        ("new", 13, true),
        ("bad", 14, false),
    ];
    assert_eq!(import_from_cursor(true, &mut servers, incoming(&offer)), 2);
    let map = servers.as_ref().expect("servers");
    assert_eq!(map.len(), 4);
    let off = map.get("off").expect("off");
    assert!(off.apps.cursor);
    assert_eq!(off.server, spec(1));
    assert_eq!(off.name, "off name");
    assert_eq!(off.apps.others, vec!["codex".to_string()]);
    assert_eq!(off.tags, vec!["t".to_string()]);
    assert!(map.get("on").expect("on").apps.cursor);
    assert!(!map.get("alone").expect("alone").apps.cursor);
    assert!(map.get("bad").is_none());
    let new = map.get("new").expect("new");
    assert_eq!(new.id, "new");
    assert_eq!(new.name, "new");
    assert_eq!(new.server, spec(13));
    assert!(new.apps.cursor);
    assert!(new.apps.others.is_empty());
    assert_eq!(new.description, None);
    assert_eq!(new.homepage, None);
    assert_eq!(new.docs, None);
    assert!(new.tags.is_empty());
    assert_eq!(import_from_cursor(true, &mut servers, incoming(&offer)), 0);
    assert_eq!(servers.as_ref().map(|map| map.len()), Some(4usize));
}

#[test]
fn import_needs_cursor_and_servers() {
    let mut servers = None;
    assert_eq!(
        import_from_cursor(false, &mut servers, incoming(&[("a", 1, true)])),
        0
    );
    assert!(servers.is_none());
    assert_eq!(import_from_cursor(true, &mut servers, incoming(&[])), 0);
    assert!(servers.is_none());
    assert_eq!(
        import_from_cursor(true, &mut servers, incoming(&[("a", 1, false)])),
        0
    );
    assert_eq!(servers.as_ref().map(|map| map.len()), Some(0usize));
    assert_eq!(
        import_from_cursor(true, &mut servers, incoming(&[("a", 1, true)])),
        1
    );
}

#[test]
fn single_servers_are_put_in_and_taken_out() {
    assert!(sync_single_server_to_cursor(false, current(&[]), "a", spec(1)).is_none());
    let document = sync_single_server_to_cursor(true, current(&[("a", 1), ("b", 2)]), "a", spec(9));
    let read = read_mcp_servers_map(document);
    assert_eq!(read.get("a"), Some(&spec(9)));
    assert_eq!(read.get("b"), Some(&spec(2)));
    assert_eq!(read.len(), 2);
    assert!(remove_server_from_cursor(false, current(&[]), "a").is_none());
    let document = remove_server_from_cursor(true, read, "a");
    let read = read_mcp_servers_map(document);
    assert_eq!(read.get("a"), None);
    assert_eq!(read.get("b"), Some(&spec(2)));
    let document = remove_server_from_cursor(true, read, "missing");
    assert_eq!(read_mcp_servers_map(document).len(), 1);
}

#[test]
fn enabled_and_valid_servers_are_written() {
    let mut map = StrMap::new();
    for (id, n, cursor, valid) in [
        ("a", 1, true, true),
        ("b", 2, false, true),
        ("c", 3, true, false),
        ("d", 4, true, true),
    ] {
        map.insert(
            id.to_string(),
            CheckedServer {
                server: server(id, n, cursor),
                valid,
            },
        );
    }
    let document = sync_enabled_to_cursor(true, Some(map));
    let read = read_mcp_servers_map(document);
    assert_eq!(read.len(), 2);
    assert_eq!(read.get("a"), Some(&spec(1)));
    assert_eq!(read.get("d"), Some(&spec(4)));
    assert!(sync_enabled_to_cursor(true, None).is_none());
    assert!(sync_enabled_to_cursor(false, Some(StrMap::new())).is_none());
    let document = sync_enabled_to_cursor(true, Some(StrMap::new()));
    assert!(document.is_some());
    assert!(read_mcp_servers_map(document).is_empty());
}
