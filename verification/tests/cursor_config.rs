use cc_switch::cursor_config::{
    byok_failure, cursor_auth_json_paths, cursor_ide_state_db, extract_openai_env, get_cursor_dir,
    get_cursor_live_provider_path, get_cursor_mcp_path, get_cursor_skills_dir, has_mcp_document,
    read_cursor_access_token, read_cursor_live_settings, read_mcp_servers_map,
    read_token_from_auth_json, read_token_from_state_vscdb, set_mcp_servers_map,
    should_sync_cursor_files, state_db_uri, token_from_item_document, token_from_item_table_blob,
    token_from_json_value, validate_provider_settings, validate_settings_with_url,
    write_cursor_provider_live, write_ide_byok, write_item_table_byok, ByokStep, FoundFile,
    Provider,
};
use cc_switch::binary64::Binary64;
use cc_switch::error::AppError;
use cc_switch::json::JsonValue;
use cc_switch::location::{Location, Platform};
use cc_switch::outside::{Document, UrlParts};
use cc_switch::str_map::StrMap;

fn own(value: &serde_json::Value) -> JsonValue {
    match value {
        serde_json::Value::Null => JsonValue::Null,
        serde_json::Value::Bool(b) => JsonValue::Bool(*b),
        serde_json::Value::Number(n) => match (n.as_u64(), n.as_i64()) {
            (Some(n), _) => JsonValue::Unsigned(n),
            (None, Some(n)) => JsonValue::Negative(n),
            (None, None) => JsonValue::Float(Binary64 {
                bits: n.as_f64().unwrap_or(0.0).to_bits(),
            }),
        },
        serde_json::Value::String(s) => JsonValue::Text(s.clone()),
        serde_json::Value::Array(items) => JsonValue::Array(items.iter().map(own).collect()),
        serde_json::Value::Object(members) => {
            let mut map = StrMap::new();
            for (key, value) in members {
                map.insert(key.clone(), own(value));
            }
            JsonValue::Object(map)
        }
    }
}

fn json(text: &str) -> JsonValue {
    own(&serde_json::from_str::<serde_json::Value>(text).expect("valid JSON"))
}

fn text_at<'a>(value: &'a JsonValue, first: &str, second: &str) -> Option<&'a str> {
    value
        .get(first)
        .and_then(|v| v.get(second))
        .and_then(|v| v.as_text())
        .map(|s| s.as_str())
}

fn place(base: &str, parts: &[&str]) -> Location {
    let mut place = Location::at(base);
    for part in parts {
        place = place.join(part);
    }
    place
}

fn key_of(error: AppError) -> String {
    match error {
        AppError::Localized { key, .. } => key,
        _ => panic!("localized error expected"),
    }
}

fn auth_token(text: &str) -> Option<String> {
    read_token_from_auth_json(&vec![Some(text.to_string())])
}

#[test]
fn mcp_roundtrip_writes_mcp_servers() {
    let mut servers = StrMap::new();
    servers.insert(
        "filesystem".to_string(),
        json(r#"{"command": "npx", "args": ["-y", "@modelcontextprotocol/server-filesystem"]}"#),
    );
    let document = set_mcp_servers_map(servers);
    assert_eq!(
        get_cursor_mcp_path(&None, "/home/u"),
        place("/home/u", &[".cursor", "mcp.json"])
    );
    let read = read_mcp_servers_map(Some(document));
    let command = read.get("filesystem").and_then(|s| s.get("command"));
    assert_eq!(command, Some(&JsonValue::Text("npx".to_string())));
    assert_eq!(read.len(), 1);
}

#[test]
fn live_provider_roundtrip_and_validation() {
    let provider = Provider {
        id: "deepseek".to_string(),
        name: "DeepSeek".to_string(),
        settings_config: json(
            r#"{"env": {
                "OPENAI_API_KEY": "sk-test",
                "OPENAI_BASE_URL": "https://api.deepseek.com/v1",
                "OPENAI_MODEL": "deepseek-chat"
            }}"#,
        ),
    };
    let written = write_cursor_provider_live(provider).expect("write live");
    assert_eq!(written.base_url, "https://api.deepseek.com/v1");
    assert_eq!(written.api_key, "sk-test");
    assert_eq!(written.model, "deepseek-chat");
    let live =
        read_cursor_live_settings(FoundFile::Document(written.document)).expect("read live");
    assert_eq!(text_at(&live, "env", "OPENAI_API_KEY"), Some("sk-test"));
    assert_eq!(text_at(&live, "ccSwitch", "providerId"), Some("deepseek"));
    assert_eq!(text_at(&live, "ccSwitch", "providerName"), Some("DeepSeek"));
    let (base, key, model) = extract_openai_env(&live);
    assert_eq!(base, "https://api.deepseek.com/v1");
    assert_eq!(key, "sk-test");
    assert_eq!(model, "deepseek-chat");
}

#[test]
fn validate_rejects_missing_key() {
    let err = validate_provider_settings(&json(
        r#"{"env": { "OPENAI_BASE_URL": "https://api.deepseek.com/v1" }}"#,
    ))
    .expect_err("missing key");
    match err {
        AppError::Localized { key, zh, en } => {
            assert_eq!(key, "provider.cursor.api_key.missing");
            assert!(zh.contains("API"));
            assert!(en.contains("API"));
        }
        _ => panic!("localized error expected"),
    }
}

#[test]
fn every_fault_has_its_key() {
    let fault = |text: &str| key_of(validate_provider_settings(&json(text)).expect_err("fault"));
    assert_eq!(fault("[]"), "provider.cursor.settings.not_object");
    assert_eq!(fault("{}"), "provider.cursor.env.missing");
    assert_eq!(fault(r#"{"env": 1}"#), "provider.cursor.env.missing");
    assert_eq!(fault(r#"{"env": {}}"#), "provider.cursor.base_url.invalid");
    for url in [
        "ftp://example.com",
        "example.com",
        "not a url",
        "file:///tmp/x",
        "",
    ] {
        let text = format!(r#"{{"env": {{"OPENAI_BASE_URL": "{url}", "OPENAI_API_KEY": "k"}}}}"#);
        assert_eq!(fault(&text), "provider.cursor.base_url.invalid");
    }
    assert_eq!(
        fault(r#"{"env": {"OPENAI_BASE_URL": "http://h", "OPENAI_API_KEY": "  "}}"#),
        "provider.cursor.api_key.missing"
    );
    for url in ["http://localhost:1", "HTTPS://Example.com/v1", "  https://a.b  "] {
        let text = format!(r#"{{"env": {{"OPENAI_BASE_URL": "{url}", "OPENAI_API_KEY": "k"}}}}"#);
        assert!(validate_provider_settings(&json(&text)).is_ok());
    }
}

#[test]
fn url_parts_decide() {
    let settings = json(r#"{"env": {"OPENAI_API_KEY": "k"}}"#);
    let parts = |scheme: &str, host: Option<&str>| {
        Some(UrlParts {
            scheme: scheme.to_string(),
            host: host.map(|h| h.to_string()),
        })
    };
    assert!(validate_settings_with_url(&settings, &parts("http", Some("h"))).is_ok());
    assert!(validate_settings_with_url(&settings, &parts("https", Some("h"))).is_ok());
    assert!(validate_settings_with_url(&settings, &parts("https", None)).is_err());
    assert!(validate_settings_with_url(&settings, &parts("ws", Some("h"))).is_err());
    assert!(validate_settings_with_url(&settings, &None).is_err());
}

#[test]
fn environment_is_trimmed() {
    let (base, key, model) = extract_openai_env(&json(
        r#"{"env": {"OPENAI_BASE_URL": " https://a/v1// ", "OPENAI_API_KEY": "\tk\n", "OPENAI_MODEL": 3}}"#,
    ));
    assert_eq!(base, "https://a/v1");
    assert_eq!(key, "k");
    assert_eq!(model, "");
    let (base, key, model) = extract_openai_env(&json("7"));
    assert_eq!((base.as_str(), key.as_str(), model.as_str()), ("", "", ""));
}

#[test]
fn snapshot_replaces_an_older_mark_and_keeps_the_rest() {
    let provider = Provider {
        id: "i".to_string(),
        name: "n".to_string(),
        settings_config: json(
            r#"{"ccSwitch": 1, "extra": true, "env": {"OPENAI_BASE_URL": "http://h", "OPENAI_API_KEY": "k"}}"#,
        ),
    };
    let live = write_cursor_provider_live(provider).expect("live");
    assert_eq!(live.document.get("extra"), Some(&JsonValue::Bool(true)));
    assert_eq!(text_at(&live.document, "ccSwitch", "providerId"), Some("i"));
    assert_eq!(
        live.document.as_object().map(|map| map.len()),
        Some(3usize)
    );
    let bad = Provider {
        id: "i".to_string(),
        name: "n".to_string(),
        settings_config: JsonValue::Null,
    };
    assert_eq!(
        key_of(write_cursor_provider_live(bad).expect_err("bad settings")),
        "provider.cursor.settings.not_object"
    );
}

#[test]
fn live_settings_need_a_file() {
    assert_eq!(
        key_of(read_cursor_live_settings(FoundFile::Missing).expect_err("missing")),
        "cursor.config.missing"
    );
    let error = AppError::Json {
        path: "p".to_string(),
        cause: "c".to_string(),
    };
    assert!(matches!(
        read_cursor_live_settings(FoundFile::Unreadable(error)),
        Err(AppError::Json { .. })
    ));
}

#[test]
fn mcp_documents_without_servers_are_empty() {
    assert!(read_mcp_servers_map(None).is_empty());
    assert!(read_mcp_servers_map(Some(json("[]"))).is_empty());
    assert!(read_mcp_servers_map(Some(json(r#"{"mcpServers": []}"#))).is_empty());
    assert!(!has_mcp_document(" \n\u{3000}"));
    assert!(has_mcp_document(" {} "));
}

#[test]
fn cursor_places() {
    assert_eq!(get_cursor_dir(&None, "/h"), place("/h", &[".cursor"]));
    let custom = Some("/c".to_string());
    assert_eq!(get_cursor_dir(&custom, "/h"), place("/c", &[]));
    assert_eq!(get_cursor_mcp_path(&custom, "/h"), place("/c", &["mcp.json"]));
    assert_eq!(
        get_cursor_live_provider_path(&None, "/h"),
        place("/h", &[".cursor", "cc-switch-provider.json"])
    );
    assert_eq!(
        get_cursor_skills_dir(&custom, "/h"),
        place("/c", &["skills"])
    );
    assert!(should_sync_cursor_files(true, false));
    assert!(should_sync_cursor_files(false, true));
    assert!(!should_sync_cursor_files(false, false));
}

#[test]
fn state_database_by_platform() {
    let rest = ["Cursor", "User", "globalStorage", "state.vscdb"];
    assert_eq!(cursor_ide_state_db(Platform::Windows, &None, "/h"), None);
    assert_eq!(
        cursor_ide_state_db(Platform::Windows, &Some("/a".to_string()), "/h"),
        Some(place("/a", &rest))
    );
    let mut mac = vec!["Library", "Application Support"];
    mac.extend(rest);
    assert_eq!(
        cursor_ide_state_db(Platform::MacOs, &None, "/h"),
        Some(place("/h", &mac))
    );
    let mut unix = vec![".config"];
    unix.extend(rest);
    let db = cursor_ide_state_db(Platform::Unix, &None, "/h");
    assert_eq!(db, Some(place("/h", &unix)));
    assert!(write_ide_byok(&db, true));
    assert!(!write_ide_byok(&db, false));
    assert!(!write_ide_byok(&None, true));
}

#[test]
fn login_files_by_platform() {
    let appdata = Some("/a".to_string());
    assert_eq!(
        cursor_auth_json_paths(Platform::Windows, &appdata, "/h", &None),
        vec![
            place("/a", &["Cursor", "auth.json"]),
            place("/h", &[".cursor", "auth.json"])
        ]
    );
    assert_eq!(
        cursor_auth_json_paths(Platform::Windows, &None, "/h", &Some("/c".to_string())),
        vec![place("/c", &["auth.json"])]
    );
    assert_eq!(
        cursor_auth_json_paths(Platform::MacOs, &None, "/h", &Some("/c".to_string())),
        vec![
            place("/h", &["Library", "Application Support", "Cursor", "auth.json"]),
            place("/h", &[".cursor", "auth.json"]),
            place("/c", &["auth.json"])
        ]
    );
    assert_eq!(
        cursor_auth_json_paths(Platform::Unix, &None, "/h", &None),
        vec![
            place("/h", &[".config", "Cursor", "auth.json"]),
            place("/h", &[".cursor", "auth.json"]),
            place("/h", &[".cursor", "auth.json"])
        ]
    );
}

#[test]
fn byok_entries_are_json() {
    assert!(write_item_table_byok(0, "b", "k", "m").is_none());
    let items = write_item_table_byok(1, "http://h", "k\"\\\u{1}\n\u{7f}é", "m").expect("items");
    let pairs: Vec<(String, String)> = items
        .into_iter()
        .map(|item| {
            let text = String::from_utf8(item.value).expect("UTF-8");
            (item.key, text)
        })
        .collect();
    let key = "\"k\\\"\\\\\\u0001\\n\u{7f}é\"";
    let expected = [
        ("useOpenAIKey", "true"),
        ("openaiKey", key),
        ("openaiBaseUrl", "\"http://h\""),
        ("openaiApiKey", key),
        ("cursorai/openaiKey", key),
        ("cursorai/openaiBaseUrl", "\"http://h\""),
        ("cursorai/useOpenAIKey", "true"),
        ("openaiModel", "\"m\""),
    ];
    assert_eq!(pairs.len(), expected.len());
    for (pair, (name, value)) in pairs.iter().zip(expected) {
        assert_eq!(pair.0, name);
        assert_eq!(pair.1, value);
    }
    assert_eq!(
        write_item_table_byok(2, "b", "k", "").map(|items| items.len()),
        Some(7usize)
    );
}

#[test]
fn byok_escapes_are_those_of_the_json_writer() {
    for code in (0u32..0x400).chain([0x2028, 0xfeff, 0x1f600]) {
        let c = char::from_u32(code).expect("character");
        let text = format!("a{c}b");
        let items = write_item_table_byok(1, "", &text, "").expect("items");
        let read: String = serde_json::from_slice(&items[1].value).expect("JSON string");
        assert_eq!(read, text);
        let escaped = items[1].value.len() != text.len() + 2;
        assert_eq!(escaped, code < 32 || c == '"' || c == '\\');
    }
}

#[test]
fn byok_failures() {
    let text = |error: AppError| match error {
        AppError::Message(text) => text,
        _ => panic!("message expected"),
    };
    assert_eq!(
        text(byok_failure(ByokStep::Open, "/p", "c")),
        "Cannot open Cursor state database /p: c"
    );
    assert_eq!(
        text(byok_failure(ByokStep::Prepare, "/p", "c")),
        "Cursor ItemTable upsert prepare failed: c"
    );
    assert_eq!(
        text(byok_failure(ByokStep::Write, "/p", "c")),
        "Cursor ItemTable write failed: c"
    );
}

#[test]
fn tokens_in_state_entries() {
    let token = |raw: &[u8]| token_from_item_table_blob(raw);
    assert_eq!(token(b" eyJabc \n"), Some("eyJabc".to_string()));
    assert_eq!(token(b"\" tok \""), Some("tok".to_string()));
    assert_eq!(token(b"\"  \""), None);
    assert_eq!(token(b"{\"accessToken\": \" t \"}"), Some("t".to_string()));
    assert_eq!(token(b"{\"accessToken\": 5}"), None);
    assert_eq!(token(b"[\"x\"]"), None);
    assert_eq!(token(b"plain"), None);
    assert_eq!(token(b""), None);
    assert_eq!(token(b"eyJ\xff"), None);
    assert_eq!(
        read_token_from_state_vscdb(&Some(b"\"x\"".to_vec())),
        Some("x".to_string())
    );
    assert_eq!(read_token_from_state_vscdb(&None), None);
}

#[test]
fn tokens_in_documents() {
    let member = |text: &str| {
        Document::Object(vec![
            ("other".to_string(), Some("o".to_string())),
            ("accessToken".to_string(), Some(text.to_string())),
        ])
    };
    assert_eq!(token_from_json_value(&member(" t ")), Some("t".to_string()));
    assert_eq!(token_from_json_value(&member("  ")), None);
    assert_eq!(token_from_json_value(&Document::Text("t".to_string())), None);
    assert_eq!(token_from_json_value(&Document::Malformed), None);
    assert_eq!(token_from_json_value(&Document::Other), None);
    assert_eq!(token_from_json_value(&Document::Object(vec![])), None);
    let number = Document::Object(vec![("accessToken".to_string(), None)]);
    assert_eq!(token_from_json_value(&number), None);
    assert_eq!(
        token_from_item_document(&Document::Text(" t".to_string())),
        Some("t".to_string())
    );
    assert_eq!(token_from_item_document(&member("m")), Some("m".to_string()));
    assert_eq!(token_from_item_document(&Document::Malformed), None);
}

#[test]
fn login_files_come_before_the_state_database() {
    assert_eq!(auth_token(r#"{"accessToken": "a"}"#), Some("a".to_string()));
    assert_eq!(auth_token(r#""a""#), None);
    assert_eq!(auth_token("eyJ"), None);
    let texts = vec![
        None,
        Some("not json".to_string()),
        Some(r#"{"accessToken": " "}"#.to_string()),
        Some(r#"{"accessToken": "second"}"#.to_string()),
        Some(r#"{"accessToken": "third"}"#.to_string()),
    ];
    let state = Some(b"eyJstate".to_vec());
    assert_eq!(
        read_cursor_access_token(&texts, &state),
        Some("second".to_string())
    );
    assert_eq!(
        read_cursor_access_token(&vec![None], &state),
        Some("eyJstate".to_string())
    );
    assert_eq!(read_cursor_access_token(&vec![], &None), None);
}

#[test]
fn state_database_is_opened_for_reading() {
    assert_eq!(
        state_db_uri(r"C:\Users\me\state.vscdb"),
        "file:C:/Users/me/state.vscdb?mode=ro"
    );
}
