//! The configuration files and the local state of the Cursor IDE.
//!
//! Cursor has no provider configuration file of its own. The active provider is
//! kept as a snapshot beside Cursor's files, MCP servers go to the documented
//! `mcp.json`, and skills into the `skills` directory. The OpenAI key is also
//! written into the IDE's state database where that exists.

use crate::error::{AppError, ErrorView};
use crate::json::{member_of, text_member, text_of, JsonValue};
use crate::location::{place_view, place_views, root_at, Location, LocationView, Platform};
use crate::outside::{
    encode_json_bool, encode_json_text, json_document, json_quoted, member_views, parse_document,
    parse_url, url_parts, utf8_text, Document, DocumentView, UrlParts,
};
use crate::str_map::StrMap;
use crate::text::{
    has_prefix, lemma_strip_back, lemma_trim_twice, opt_view, replace_char, replaced, same_text, starts_with,
    strip_back, strips, trim, trim_end_of, trimmed, Strip,
};
use vstd::prelude::*;
use vstd::utf8::{decode_utf8, encode_utf8, valid_utf8};

verus! {

pub const MCP_FILE: &'static str = "mcp.json";

pub const LIVE_PROVIDER_FILE: &'static str = "cc-switch-provider.json";

pub const SKILLS_DIR: &'static str = "skills";

pub const CURSOR_DIR: &'static str = ".cursor";

pub const AUTH_FILE: &'static str = "auth.json";

/// The key of the access token in the IDE's state database.
pub const TOKEN_ITEM: &'static str = "cursorAuth/accessToken";

/// The key of the access token in a login document.
pub const TOKEN_MEMBER: &'static str = "accessToken";

/// Cursor's directory: the configured one, or `.cursor` in the home directory.
pub open spec fn cursor_dir(custom: Option<Seq<char>>, home: Seq<char>) -> LocationView {
    match custom {
        Some(dir) => root_at(dir),
        None => root_at(home).child(CURSOR_DIR@),
    }
}

/// Cursor's directory.
pub fn get_cursor_dir(custom: &Option<String>, home: &str) -> (r: Location)
    ensures
        r@ == cursor_dir(opt_view(*custom), home@),
{
    match custom {
        Some(dir) => Location::at(dir.as_str()),
        None => Location::at(home).join(CURSOR_DIR),
    }
}

/// Where the MCP servers are kept.
pub fn get_cursor_mcp_path(custom: &Option<String>, home: &str) -> (r: Location)
    ensures
        r@ == cursor_dir(opt_view(*custom), home@).child(MCP_FILE@),
{
    get_cursor_dir(custom, home).join(MCP_FILE)
}

/// Where the snapshot of the active provider is kept.
pub fn get_cursor_live_provider_path(custom: &Option<String>, home: &str) -> (r: Location)
    ensures
        r@ == cursor_dir(opt_view(*custom), home@).child(LIVE_PROVIDER_FILE@),
{
    get_cursor_dir(custom, home).join(LIVE_PROVIDER_FILE)
}

/// Where the skills are kept.
pub fn get_cursor_skills_dir(custom: &Option<String>, home: &str) -> (r: Location)
    ensures
        r@ == cursor_dir(opt_view(*custom), home@).child(SKILLS_DIR@),
{
    get_cursor_dir(custom, home).join(SKILLS_DIR)
}

/// Whether Cursor's files are kept in step: its directory or its MCP file is
/// there.
pub fn should_sync_cursor_files(dir_exists: bool, mcp_file_exists: bool) -> (r: bool)
    ensures
        r == (dir_exists || mcp_file_exists),
{
    dir_exists || mcp_file_exists
}

/// A setting of the environment: the text under its name in `env`, without
/// white space around it; empty where there is none.
pub open spec fn env_text(settings: JsonValue, name: Seq<char>) -> Seq<char> {
    match text_of(member_of(settings.member("env"@), name)) {
        Some(s) => trimmed(s),
        None => Seq::empty(),
    }
}

fn env_setting(settings: &JsonValue, name: &str) -> (r: String)
    ensures
        r@ == env_text(*settings, name@),
{
    match text_member(settings.get("env"), name) {
        Some(s) => trim(s.as_str()),
        None => {
            let nothing: String = String::new();
            assert(nothing@ =~= Seq::<char>::empty());
            nothing
        },
    }
}

/// The base URL without slashes at its end, the key and the model.
pub open spec fn openai_env(settings: JsonValue) -> (Seq<char>, Seq<char>, Seq<char>) {
    (
        strip_back(env_text(settings, "OPENAI_BASE_URL"@), Strip::Only('/')),
        env_text(settings, "OPENAI_API_KEY"@),
        env_text(settings, "OPENAI_MODEL"@),
    )
}

/// The base URL, the key and the model that the settings hold.
pub fn extract_openai_env(settings: &JsonValue) -> (r: (String, String, String))
    ensures
        (r.0@, r.1@, r.2@) == openai_env(*settings),
{
    let base_url: String = env_setting(settings, "OPENAI_BASE_URL");
    (
        trim_end_of(base_url.as_str(), &Strip::Only('/')),
        env_setting(settings, "OPENAI_API_KEY"),
        env_setting(settings, "OPENAI_MODEL"),
    )
}

/// Whether what was read out of a base URL will do: HTTP or HTTPS, and a host.
pub open spec fn usable_url(parts: Option<(Seq<char>, Option<Seq<char>>)>) -> bool {
    &&& parts matches Some((scheme, host))
    &&& scheme == "http"@ || scheme == "https"@
    &&& host is Some
}

/// What was read out of a URL.
pub open spec fn parts_view(parts: Option<UrlParts>) -> Option<(Seq<char>, Option<Seq<char>>)> {
    match parts {
        Some(parts) => Some((parts.scheme@, opt_view(parts.host))),
        None => None,
    }
}

/// What is wrong with settings whose base URL reads as given.
pub open spec fn settings_fault(
    settings: JsonValue,
    base_url: Option<(Seq<char>, Option<Seq<char>>)>,
) -> Option<ErrorView> {
    if !(settings is Object) {
        Some(
            ErrorView::Localized {
                key: "provider.cursor.settings.not_object"@,
                zh: "Cursor 配置必须是 JSON 对象"@,
                en: "Cursor configuration must be a JSON object"@,
            },
        )
    } else if !(settings.member("env"@) matches Some(env) && env is Object) {
        Some(
            ErrorView::Localized {
                key: "provider.cursor.env.missing"@,
                zh: "Cursor 配置缺少 env 字段"@,
                en: "Cursor configuration is missing the env field"@,
            },
        )
    } else if !usable_url(base_url) {
        Some(
            ErrorView::Localized {
                key: "provider.cursor.base_url.invalid"@,
                zh: "请填写有效的 Cursor Override OpenAI Base URL（需包含 http/https）"@,
                en: "Enter a valid Cursor Override OpenAI Base URL (http or https)"@,
            },
        )
    } else if env_text(settings, "OPENAI_API_KEY"@).len() == 0 {
        Some(
            ErrorView::Localized {
                key: "provider.cursor.api_key.missing"@,
                zh: "请填写 Cursor 的 OpenAI API Key"@,
                en: "Enter a Cursor OpenAI API key"@,
            },
        )
    } else {
        None
    }
}

/// The result that a fault amounts to.
pub open spec fn reports_fault(r: Result<(), AppError>, fault: Option<ErrorView>) -> bool {
    match r {
        Ok(_) => fault is None,
        Err(e) => fault == Some(e@),
    }
}

/// Checks settings whose base URL reads as given.
pub fn validate_settings_with_url(settings: &JsonValue, base_url: &Option<UrlParts>) -> (r: Result<
    (),
    AppError,
>)
    ensures
        reports_fault(r, settings_fault(*settings, parts_view(*base_url))),
{
    if settings.as_object().is_none() {
        return Err(
            AppError::localized(
                "provider.cursor.settings.not_object",
                "Cursor 配置必须是 JSON 对象",
                "Cursor configuration must be a JSON object",
            ),
        );
    }
    let has_env: bool = match settings.get("env") {
        Some(env) => env.as_object().is_some(),
        None => false,
    };
    if !has_env {
        return Err(
            AppError::localized(
                "provider.cursor.env.missing",
                "Cursor 配置缺少 env 字段",
                "Cursor configuration is missing the env field",
            ),
        );
    }
    let usable: bool = match base_url {
        Some(parts) => (same_text(parts.scheme.as_str(), "http") || same_text(
            parts.scheme.as_str(),
            "https",
        )) && parts.host.is_some(),
        None => false,
    };
    if !usable {
        return Err(
            AppError::localized(
                "provider.cursor.base_url.invalid",
                "请填写有效的 Cursor Override OpenAI Base URL（需包含 http/https）",
                "Enter a valid Cursor Override OpenAI Base URL (http or https)",
            ),
        );
    }
    let api_key: String = env_setting(settings, "OPENAI_API_KEY");
    if api_key.as_str().is_empty() {
        return Err(
            AppError::localized(
                "provider.cursor.api_key.missing",
                "请填写 Cursor 的 OpenAI API Key",
                "Enter a Cursor OpenAI API key",
            ),
        );
    }
    Ok(())
}

/// Checks that settings hold what Cursor needs: a usable base URL and a key.
pub fn validate_provider_settings(settings: &JsonValue) -> (r: Result<(), AppError>)
    ensures
        reports_fault(
            r,
            settings_fault(*settings, url_parts(env_text(*settings, "OPENAI_BASE_URL"@))),
        ),
{
    let base_url: String = env_setting(settings, "OPENAI_BASE_URL");
    let parts: Option<UrlParts> = parse_url(base_url.as_str());
    validate_settings_with_url(settings, &parts)
}

/// A provider that can be made the active one.
#[derive(Debug)]
pub struct Provider {
    pub id: String,
    pub name: String,
    pub settings_config: JsonValue,
}

/// What makes a provider the active one.
#[derive(Debug)]
pub struct LiveProvider {
    /// The snapshot to write.
    pub document: JsonValue,
    pub base_url: String,
    pub api_key: String,
    pub model: String,
}

/// Whether a document is the snapshot of a provider: its settings, and beside
/// them the provider's identity under `ccSwitch`.
pub open spec fn is_snapshot(
    document: JsonValue,
    settings: JsonValue,
    id: Seq<char>,
    name: Seq<char>,
) -> bool {
    &&& document matches JsonValue::Object(map)
    &&& settings matches JsonValue::Object(own)
    &&& map@.dom() == own@.dom().insert("ccSwitch"@)
    &&& forall|key: Seq<char>|
        key != "ccSwitch"@ ==> #[trigger] document.member(key) == settings.member(key)
    &&& document.member("ccSwitch"@) matches Some(JsonValue::Object(mark)) && mark@.dom() == set![
        "providerId"@,
        "providerName"@,
    ]
    &&& text_of(member_of(document.member("ccSwitch"@), "providerId"@)) == Some(id)
    &&& text_of(member_of(document.member("ccSwitch"@), "providerName"@)) == Some(name)
}

/// What is to be written to make a provider the active one, if its settings
/// will do.
pub fn write_cursor_provider_live(provider: Provider) -> (r: Result<LiveProvider, AppError>)
    ensures
        ({
            let settings = provider.settings_config;
            let fault = settings_fault(
                settings,
                url_parts(env_text(settings, "OPENAI_BASE_URL"@)),
            );
            match r {
                Ok(live) => {
                    &&& fault is None
                    &&& is_snapshot(live.document, settings, provider.id@, provider.name@)
                    &&& (live.base_url@, live.api_key@, live.model@) == openai_env(settings)
                },
                Err(e) => fault == Some(e@),
            }
        }),
{
    if let Err(e) = validate_provider_settings(&provider.settings_config) {
        return Err(e);
    }
    let (base_url, api_key, model): (String, String, String) = extract_openai_env(
        &provider.settings_config,
    );
    let document: JsonValue = live_document(provider);
    Ok(LiveProvider { document, base_url, api_key, model })
}

fn live_document(provider: Provider) -> (r: JsonValue)
    requires
        provider.settings_config is Object,
    ensures
        is_snapshot(r, provider.settings_config, provider.id@, provider.name@),
{
    let Provider { id, name, settings_config } = provider;
    proof {
        reveal_strlit("providerId");
        reveal_strlit("providerName");
        assert("providerId"@.len() == 10 && "providerName"@.len() == 12);
    }
    let mut mark: StrMap<JsonValue> = StrMap::new();
    mark.insert("providerId".to_string(), JsonValue::Text(id));
    mark.insert("providerName".to_string(), JsonValue::Text(name));
    assert(mark@.dom() =~= set!["providerId"@, "providerName"@]);
    match settings_config {
        JsonValue::Object(own) => {
            let mut map: StrMap<JsonValue> = own;
            map.insert("ccSwitch".to_string(), JsonValue::Object(mark));
            assert(map@.dom() =~= own@.dom().insert("ccSwitch"@));
            JsonValue::Object(map)
        },
        other => other,
    }
}

/// The snapshot of the active provider as it was found.
#[derive(Debug)]
pub enum FoundFile {
    Missing,
    /// The file could not be read, or holds no JSON document.
    Unreadable(AppError),
    Document(JsonValue),
}

/// The settings of the active provider.
pub fn read_cursor_live_settings(found: FoundFile) -> (r: Result<JsonValue, AppError>)
    ensures
        match (found, r) {
            (FoundFile::Missing, Err(e)) => e@ == (ErrorView::Localized {
                key: "cursor.config.missing"@,
                zh: "Cursor 配置文件不存在"@,
                en: "Cursor configuration file not found"@,
            }),
            (FoundFile::Unreadable(error), Err(e)) => e == error,
            (FoundFile::Document(document), Ok(settings)) => settings == document,
            _ => false,
        },
{
    match found {
        FoundFile::Missing => Err(
            AppError::localized(
                "cursor.config.missing",
                "Cursor 配置文件不存在",
                "Cursor configuration file not found",
            ),
        ),
        FoundFile::Unreadable(error) => Err(error),
        FoundFile::Document(document) => Ok(document),
    }
}

/// Whether the text of the MCP file is worth parsing: it is not blank.
pub fn has_mcp_document(text: &str) -> (r: bool)
    ensures
        r == (trimmed(text@).len() > 0),
{
    let bare: String = trim(text);
    !bare.as_str().is_empty()
}

/// The MCP servers that a document holds, by id.
pub open spec fn mcp_servers(document: Option<JsonValue>) -> Map<Seq<char>, JsonValue> {
    match member_of(document, "mcpServers"@) {
        Some(JsonValue::Object(servers)) => servers@,
        _ => Map::empty(),
    }
}

/// The MCP servers that the MCP file holds, by id: none where there is no file,
/// or it is blank, or holds no servers.
pub fn read_mcp_servers_map(document: Option<JsonValue>) -> (r: StrMap<JsonValue>)
    ensures
        r@ == mcp_servers(document),
        member_of(document, "mcpServers"@) matches Some(JsonValue::Object(servers)) ==> r
            == servers,
{
    match document {
        Some(JsonValue::Object(map)) => match map.take("mcpServers") {
            Some(JsonValue::Object(servers)) => servers,
            _ => StrMap::new(),
        },
        _ => StrMap::new(),
    }
}

/// The document of the MCP file that holds the given servers and nothing else.
pub fn set_mcp_servers_map(servers: StrMap<JsonValue>) -> (r: JsonValue)
    ensures
        r matches JsonValue::Object(map) && map@.dom() == set!["mcpServers"@],
        r.member("mcpServers"@) == Some(JsonValue::Object(servers)),
{
    let mut map: StrMap<JsonValue> = StrMap::new();
    map.insert("mcpServers".to_string(), JsonValue::Object(servers));
    assert(map@.dom() =~= set!["mcpServers"@]);
    JsonValue::Object(map)
}

/// An entry of the IDE's state database.
#[derive(Debug)]
pub struct StateItem {
    pub key: String,
    pub value: Vec<u8>,
}

/// The keys and values of a list of entries.
pub open spec fn item_views(items: Seq<StateItem>) -> Seq<(Seq<char>, Seq<u8>)> {
    items.map_values(|item: StateItem| (item.key@, item.value@))
}

/// The entries that make the IDE use an OpenAI key, in the order in which they
/// are written.
pub open spec fn byok_items(
    base_url: Seq<char>,
    api_key: Seq<char>,
    model: Seq<char>,
) -> Seq<(Seq<char>, Seq<u8>)> {
    let key = encode_utf8(json_quoted(api_key));
    let base = encode_utf8(json_quoted(base_url));
    let on = encode_utf8("true"@);
    let items = seq![
        ("useOpenAIKey"@, on),
        ("openaiKey"@, key),
        ("openaiBaseUrl"@, base),
        ("openaiApiKey"@, key),
        ("cursorai/openaiKey"@, key),
        ("cursorai/openaiBaseUrl"@, base),
        ("cursorai/useOpenAIKey"@, on),
    ];
    if model.len() == 0 {
        items
    } else {
        items.push(("openaiModel"@, encode_utf8(json_quoted(model))))
    }
}

fn item(key: &str, value: Vec<u8>) -> (r: StateItem)
    ensures
        r.key@ == key@,
        r.value@ == value@,
{
    StateItem { key: key.to_string(), value }
}

/// The entries that make the IDE use an OpenAI key; nothing is written into a
/// database without the table for them.
pub fn write_item_table_byok(table_exists: i64, base_url: &str, api_key: &str, model: &str) -> (r:
    Option<Vec<StateItem>>)
    ensures
        r is None == (table_exists == 0),
        r matches Some(items) ==> item_views(items@) == byok_items(base_url@, api_key@, model@),
{
    if table_exists == 0 {
        return None;
    }
    let mut items: Vec<StateItem> = vec![
        item("useOpenAIKey", encode_json_bool(true)),
        item("openaiKey", encode_json_text(api_key)),
        item("openaiBaseUrl", encode_json_text(base_url)),
        item("openaiApiKey", encode_json_text(api_key)),
        item("cursorai/openaiKey", encode_json_text(api_key)),
        item("cursorai/openaiBaseUrl", encode_json_text(base_url)),
        item("cursorai/useOpenAIKey", encode_json_bool(true)),
    ];
    if !model.is_empty() {
        items.push(item("openaiModel", encode_json_text(model)));
    }
    assert(item_views(items@) =~= byok_items(base_url@, api_key@, model@));
    Some(items)
}

/// A step of writing the state database that can fail.
#[derive(Debug, Clone, Copy, PartialEq, Eq, Structural)]
pub enum ByokStep {
    Open,
    Prepare,
    Write,
}

/// The error for a failed step of writing the state database.
pub fn byok_failure(step: ByokStep, path: &str, cause: &str) -> (r: AppError)
    ensures
        r@ == ErrorView::Message(
            match step {
                ByokStep::Open => "Cannot open Cursor state database "@ + path@ + ": "@ + cause@,
                ByokStep::Prepare => "Cursor ItemTable upsert prepare failed: "@ + cause@,
                ByokStep::Write => "Cursor ItemTable write failed: "@ + cause@,
            },
        ),
{
    match step {
        ByokStep::Open => AppError::Message(
            "Cannot open Cursor state database ".to_string().concat(path).concat(": ").concat(
                cause,
            ),
        ),
        ByokStep::Prepare => AppError::caused("Cursor ItemTable upsert prepare failed: ", cause),
        ByokStep::Write => AppError::caused("Cursor ItemTable write failed: ", cause),
    }
}

/// Whether the IDE's state database is to be written: it is known where it is,
/// and it is there.
pub fn write_ide_byok(state_db: &Option<Location>, exists: bool) -> (r: bool)
    ensures
        r == (state_db is Some && exists),
{
    state_db.is_some() && exists
}

/// The directory in which the IDE keeps its own files.
pub open spec fn ide_dir(
    platform: Platform,
    appdata: Option<Seq<char>>,
    home: Seq<char>,
) -> Option<LocationView> {
    match platform {
        Platform::Windows => match appdata {
            Some(dir) => Some(root_at(dir).child("Cursor"@)),
            None => None,
        },
        Platform::MacOs => Some(
            root_at(home).child("Library"@).child("Application Support"@).child("Cursor"@),
        ),
        Platform::Unix => Some(root_at(home).child(".config"@).child("Cursor"@)),
    }
}

fn ide_directory(platform: Platform, appdata: &Option<String>, home: &str) -> (r: Option<Location>)
    ensures
        place_view(r) == ide_dir(platform, opt_view(*appdata), home@),
{
    match platform {
        Platform::Windows => match appdata {
            Some(dir) => Some(Location::at(dir.as_str()).join("Cursor")),
            None => None,
        },
        Platform::MacOs => Some(
            Location::at(home).join("Library").join("Application Support").join("Cursor"),
        ),
        Platform::Unix => Some(Location::at(home).join(".config").join("Cursor")),
    }
}

/// Where the IDE's state database is.
pub open spec fn ide_state_db(
    platform: Platform,
    appdata: Option<Seq<char>>,
    home: Seq<char>,
) -> Option<LocationView> {
    match ide_dir(platform, appdata, home) {
        Some(dir) => Some(dir.child("User"@).child("globalStorage"@).child("state.vscdb"@)),
        None => None,
    }
}

/// Where the IDE's state database is; on Windows it is known only with the
/// directory for application data.
pub fn cursor_ide_state_db(platform: Platform, appdata: &Option<String>, home: &str) -> (r: Option<
    Location,
>)
    ensures
        place_view(r) == ide_state_db(platform, opt_view(*appdata), home@),
{
    match ide_directory(platform, appdata, home) {
        Some(dir) => Some(dir.join("User").join("globalStorage").join("state.vscdb")),
        None => None,
    }
}

/// The files that may hold the login, in the order in which they are tried.
pub open spec fn auth_json_paths(
    platform: Platform,
    appdata: Option<Seq<char>>,
    home: Seq<char>,
    custom: Option<Seq<char>>,
) -> Seq<LocationView> {
    let own = match ide_dir(platform, appdata, home) {
        Some(dir) => seq![dir.child(AUTH_FILE@)],
        None => Seq::empty(),
    };
    let shared = if platform == Platform::Windows {
        Seq::empty()
    } else {
        seq![root_at(home).child(CURSOR_DIR@).child(AUTH_FILE@)]
    };
    own + shared + seq![cursor_dir(custom, home).child(AUTH_FILE@)]
}

/// The files that may hold the login, in the order in which they are tried.
pub fn cursor_auth_json_paths(
    platform: Platform,
    appdata: &Option<String>,
    home: &str,
    custom: &Option<String>,
) -> (r: Vec<Location>)
    ensures
        place_views(r@) == auth_json_paths(platform, opt_view(*appdata), home@, opt_view(*custom)),
{
    let mut paths: Vec<Location> = Vec::new();
    if let Some(dir) = ide_directory(platform, appdata, home) {
        paths.push(dir.join(AUTH_FILE));
    }
    if platform != Platform::Windows {
        paths.push(Location::at(home).join(CURSOR_DIR).join(AUTH_FILE));
    }
    paths.push(get_cursor_dir(custom, home).join(AUTH_FILE));
    assert(place_views(paths@) =~= auth_json_paths(
        platform,
        opt_view(*appdata),
        home@,
        opt_view(*custom),
    ));
    paths
}

/// A token: a text without white space around it, if anything is left.
pub open spec fn token_of(text: Option<Seq<char>>) -> Option<Seq<char>> {
    match text {
        Some(s) if trimmed(s).len() > 0 => Some(trimmed(s)),
        _ => None,
    }
}

fn token_in(text: &str) -> (r: Option<String>)
    ensures
        opt_view(r) == token_of(Some(text@)),
{
    let token: String = trim(text);
    if token.as_str().is_empty() {
        None
    } else {
        Some(token)
    }
}

/// The string under a key of an object, if its value is one.
pub open spec fn string_under(
    members: Seq<(Seq<char>, Option<Seq<char>>)>,
    key: Seq<char>,
) -> Option<Seq<char>>
    decreases members.len(),
{
    if members.len() == 0 {
        None
    } else if members[0].0 == key {
        members[0].1
    } else {
        string_under(members.drop_first(), key)
    }
}

/// The token that a login document holds: the string under `accessToken`.
pub open spec fn document_token(document: DocumentView) -> Option<Seq<char>> {
    match document {
        DocumentView::Object(members) => token_of(string_under(members, TOKEN_MEMBER@)),
        _ => None,
    }
}

/// The token that an entry of the state database holds: a document that is a
/// string is a token itself.
pub open spec fn item_token(document: DocumentView) -> Option<Seq<char>> {
    match document {
        DocumentView::Text(s) => token_of(Some(s)),
        other => document_token(other),
    }
}

/// The token that a login document holds.
pub fn token_from_json_value(document: &Document) -> (r: Option<String>)
    ensures
        opt_view(r) == document_token(document@),
{
    match document {
        Document::Object(members) => {
            let ghost all = member_views(members@);
            let mut i: usize = 0;
            assert(all.skip(0) =~= all);
            while i < members.len()
                invariant
                    all == member_views(members@),
                    i <= members@.len(),
                    string_under(all, TOKEN_MEMBER@) == string_under(
                        all.skip(i as int),
                        TOKEN_MEMBER@,
                    ),
                    document@ == DocumentView::Object(all),
                decreases members.len() - i,
            {
                assert(all.skip(i as int)[0] == all[i as int]);
                assert(all.skip(i as int).drop_first() =~= all.skip(i + 1));
                if same_text(members[i].0.as_str(), TOKEN_MEMBER) {
                    return match &members[i].1 {
                        Some(text) => token_in(text.as_str()),
                        None => None,
                    };
                }
                i += 1;
            }
            None
        },
        _ => None,
    }
}

/// The token that a parsed entry of the state database holds.
pub fn token_from_item_document(document: &Document) -> (r: Option<String>)
    ensures
        opt_view(r) == item_token(document@),
{
    match document {
        Document::Text(text) => token_in(text.as_str()),
        other => token_from_json_value(other),
    }
}

/// The token that the bytes of an entry of the state database stand for: a bare
/// token, or a JSON document that holds one.
pub open spec fn blob_token(raw: Seq<u8>) -> Option<Seq<char>> {
    let text = trimmed(decode_utf8(raw));
    if !valid_utf8(raw) {
        None
    } else if has_prefix(text, "eyJ"@) {
        Some(text)
    } else {
        item_token(json_document(text))
    }
}

/// The token that the bytes of an entry of the state database stand for.
pub fn token_from_item_table_blob(raw: &[u8]) -> (r: Option<String>)
    ensures
        opt_view(r) == blob_token(raw@),
{
    match utf8_text(raw) {
        Some(text) => {
            let text: String = trim(text);
            if starts_with(text.as_str(), "eyJ") {
                return Some(text);
            }
            let document: Document = parse_document(text.as_str());
            token_from_item_document(&document)
        },
        None => None,
    }
}

/// The first token among the texts of the login files.
pub open spec fn first_auth_token(texts: Seq<Option<String>>) -> Option<Seq<char>>
    decreases texts.len(),
{
    if texts.len() == 0 {
        None
    } else {
        let token = match texts[0] {
            Some(text) => document_token(json_document(text@)),
            None => None,
        };
        if token is Some {
            token
        } else {
            first_auth_token(texts.drop_first())
        }
    }
}

/// The first token among the texts of the login files; a file that could not be
/// read has none.
pub fn read_token_from_auth_json(texts: &Vec<Option<String>>) -> (r: Option<String>)
    ensures
        opt_view(r) == first_auth_token(texts@),
{
    let mut i: usize = 0;
    assert(texts@.skip(0) =~= texts@);
    while i < texts.len()
        invariant
            i <= texts@.len(),
            first_auth_token(texts@) == first_auth_token(texts@.skip(i as int)),
        decreases texts.len() - i,
    {
        assert(texts@.skip(i as int).drop_first() =~= texts@.skip(i + 1));
        if let Some(text) = &texts[i] {
            let document: Document = parse_document(text.as_str());
            let token: Option<String> = token_from_json_value(&document);
            if token.is_some() {
                return token;
            }
        }
        i += 1;
    }
    None
}

/// The URI by which the state database is opened for reading only.
pub fn state_db_uri(path: &str) -> (r: String)
    ensures
        r@ == "file:"@ + replaced(path@, '\\', '/') + "?mode=ro"@,
{
    let path: String = replace_char(path, '\\', '/');
    "file:".to_string().concat(path.as_str()).concat("?mode=ro")
}

/// The token in the state database, given the bytes of its entry as far as they
/// could be read.
pub open spec fn state_token(raw: Option<Seq<u8>>) -> Option<Seq<char>> {
    match raw {
        Some(raw) => blob_token(raw),
        None => None,
    }
}

/// The token in the state database, given the bytes of its entry as far as they
/// could be read.
pub fn read_token_from_state_vscdb(raw: &Option<Vec<u8>>) -> (r: Option<String>)
    ensures
        opt_view(r) == state_token(
            match *raw {
                Some(raw) => Some(raw@),
                None => None,
            },
        ),
{
    match raw {
        Some(raw) => token_from_item_table_blob(raw.as_slice()),
        None => None,
    }
}

/// The session token that the IDE has locally: the login files come first, then
/// the state database.
pub open spec fn access_token(texts: Seq<Option<String>>, state: Option<Seq<u8>>) -> Option<
    Seq<char>,
> {
    match first_auth_token(texts) {
        Some(token) => Some(token),
        None => state_token(state),
    }
}

/// The session token that the IDE has locally: the login files come first, then
/// the state database.
pub fn read_cursor_access_token(auth_texts: &Vec<Option<String>>, state: &Option<Vec<u8>>) -> (r:
    Option<String>)
    ensures
        opt_view(r) == access_token(
            auth_texts@,
            match *state {
                Some(raw) => Some(raw@),
                None => None,
            },
        ),
{
    let token: Option<String> = read_token_from_auth_json(auth_texts);
    if token.is_some() {
        return token;
    }
    read_token_from_state_vscdb(state)
}

/// What was written as the MCP file is read back.
pub proof fn law_mcp_servers_read_back(servers: StrMap<JsonValue>, document: JsonValue)
    requires
        document.member("mcpServers"@) == Some(JsonValue::Object(servers)),
    ensures
        mcp_servers(Some(document)) == servers@,
{
}

/// A snapshot keeps the settings of the provider: what is read from it for the
/// environment is what the provider says, and it passes the same checks.
pub proof fn law_snapshot_keeps_the_environment(
    document: JsonValue,
    settings: JsonValue,
    id: Seq<char>,
    name: Seq<char>,
    base_url: Option<(Seq<char>, Option<Seq<char>>)>,
)
    requires
        is_snapshot(document, settings, id, name),
    ensures
        document.member("env"@) == settings.member("env"@),
        openai_env(document) == openai_env(settings),
        settings_fault(document, base_url) == settings_fault(settings, base_url),
{
    reveal_strlit("env");
    reveal_strlit("ccSwitch");
    assert("env"@.len() == 3 && "ccSwitch"@.len() == 8);
}

/// Settings that pass the checks hold a key.
pub proof fn law_checked_settings_have_a_key(
    settings: JsonValue,
    base_url: Option<(Seq<char>, Option<Seq<char>>)>,
)
    requires
        settings_fault(settings, base_url) is None,
    ensures
        openai_env(settings).1.len() > 0,
        usable_url(base_url),
{
}

/// A token is never blank, and has no white space around it.
pub proof fn law_tokens_are_trimmed(texts: Seq<Option<String>>, raw: Option<Seq<u8>>)
    ensures
        first_auth_token(texts) matches Some(token) ==> token.len() > 0 && trimmed(token) == token,
        state_token(raw) matches Some(token) ==> token.len() > 0 && trimmed(token) == token,
    decreases texts.len(),
{
    if texts.len() > 0 {
        law_tokens_are_trimmed(texts.drop_first(), raw);
        if let Some(text) = texts[0] {
            lemma_token_is_trimmed(json_document(text@));
        }
    }
    if let Some(raw) = raw {
        let text = trimmed(decode_utf8(raw));
        lemma_trim_twice(decode_utf8(raw));
        lemma_token_is_trimmed(json_document(text));
        reveal_strlit("eyJ");
        assert("eyJ"@.len() == 3);
    }
}

proof fn lemma_token_is_trimmed(document: DocumentView)
    ensures
        item_token(document) matches Some(token) ==> token.len() > 0 && trimmed(token) == token,
{
    match document {
        DocumentView::Text(s) => lemma_trim_twice(s),
        DocumentView::Object(members) => {
            if let Some(s) = string_under(members, TOKEN_MEMBER@) {
                lemma_trim_twice(s);
            }
        },
        _ => {},
    }
}

/// The base URL never ends in a slash.
pub proof fn law_base_url_has_no_slash_at_its_end(settings: JsonValue)
    ensures
        openai_env(settings).0.len() > 0 ==> openai_env(settings).0.last() != '/',
{
    lemma_strip_back(env_text(settings, "OPENAI_BASE_URL"@), Strip::Only('/'));
}

/// Cursor's directory is the configured one, wherever the home directory is;
/// without one it is `.cursor` in the home directory.
pub proof fn law_where_the_files_are(custom: Seq<char>, home: Seq<char>)
    ensures
        cursor_dir(Some(custom), home) == (LocationView { base: custom, parts: seq![] }),
        cursor_dir(None, home) == (LocationView { base: home, parts: seq![".cursor"@] }),
        cursor_dir(None, home).child(MCP_FILE@) == (LocationView {
            base: home,
            parts: seq![".cursor"@, "mcp.json"@],
        }),
        cursor_dir(None, home).child(LIVE_PROVIDER_FILE@) == (LocationView {
            base: home,
            parts: seq![".cursor"@, "cc-switch-provider.json"@],
        }),
        cursor_dir(None, home).child(SKILLS_DIR@) == (LocationView {
            base: home,
            parts: seq![".cursor"@, "skills"@],
        }),
{
    assert(cursor_dir(Some(custom), home).parts =~= seq![]);
    assert(cursor_dir(None, home).parts =~= seq![".cursor"@]);
    assert(cursor_dir(None, home).child(MCP_FILE@).parts =~= seq![".cursor"@, "mcp.json"@]);
    assert(cursor_dir(None, home).child(LIVE_PROVIDER_FILE@).parts =~= seq![
        ".cursor"@,
        "cc-switch-provider.json"@,
    ]);
    assert(cursor_dir(None, home).child(SKILLS_DIR@).parts =~= seq![".cursor"@, "skills"@]);
}

/// Base URL, key and model are the texts under their names in `env`, without
/// the white space around them; only slashes are taken off the end of the URL.
pub proof fn law_environment_is_read_by_name(settings: JsonValue, env: JsonValue, text: String)
    requires
        settings.member("env"@) == Some(env),
    ensures
        env.member("OPENAI_API_KEY"@) == Some(JsonValue::Text(text)) ==> openai_env(settings).1
            == trimmed(text@),
        env.member("OPENAI_MODEL"@) == Some(JsonValue::Text(text)) ==> openai_env(settings).2
            == trimmed(text@),
        env.member("OPENAI_BASE_URL"@) == Some(JsonValue::Text(text)) ==> {
            let url = openai_env(settings).0;
            &&& url.len() <= trimmed(text@).len()
            &&& url == trimmed(text@).take(url.len() as int)
            &&& forall|i: int|
                url.len() <= i < trimmed(text@).len() ==> (#[trigger] trimmed(text@)[i]) == '/'
            &&& url.len() > 0 ==> url.last() != '/'
        },
{
    lemma_stripped_tail(trimmed(text@), Strip::Only('/'));
    lemma_strip_back(trimmed(text@), Strip::Only('/'));
}

proof fn lemma_stripped_tail(s: Seq<char>, what: Strip)
    ensures
        forall|i: int| strip_back(s, what).len() <= i < s.len() ==> strips(what, #[trigger] s[i]),
    decreases s.len(),
{
    if s.len() > 0 && strips(what, s.last()) {
        lemma_stripped_tail(s.drop_last(), what);
        assert forall|i: int| strip_back(s, what).len() <= i < s.len() implies strips(
            what,
            #[trigger] s[i],
        ) by {
            if i < s.len() - 1 {
                assert(s.drop_last()[i] == s[i]);
            }
        }
    }
}

/// What `env` does not hold as a text reads as nothing.
pub proof fn law_missing_environment_is_empty(settings: JsonValue, env: JsonValue)
    requires
        settings.member("env"@) is None || settings.member("env"@) == Some(env),
    ensures
        settings.member("env"@) is None || !(env.member("OPENAI_BASE_URL"@) matches Some(
            JsonValue::Text(_),
        )) ==> openai_env(settings).0.len() == 0,
        settings.member("env"@) is None || !(env.member("OPENAI_API_KEY"@) matches Some(
            JsonValue::Text(_),
        )) ==> openai_env(settings).1.len() == 0,
        settings.member("env"@) is None || !(env.member("OPENAI_MODEL"@) matches Some(
            JsonValue::Text(_),
        )) ==> openai_env(settings).2.len() == 0,
{
}

/// Settings pass exactly if they are an object with an object `env`, a base URL
/// with a host over HTTP or HTTPS, and a key that is not blank.
pub proof fn law_which_settings_pass(
    settings: JsonValue,
    base_url: Option<(Seq<char>, Option<Seq<char>>)>,
)
    ensures
        settings_fault(settings, base_url) is None <==> {
            &&& settings is Object
            &&& (settings.member("env"@) matches Some(env) && env is Object)
            &&& (base_url matches Some((scheme, host)) && host is Some && (scheme == "http"@
                || scheme == "https"@))
            &&& openai_env(settings).1.len() > 0
        },
{
}

/// Of several faults the first is reported: the settings are no object, have no
/// object `env`, no usable base URL, no key.
pub proof fn law_first_fault_is_reported(
    settings: JsonValue,
    base_url: Option<(Seq<char>, Option<Seq<char>>)>,
    key: Seq<char>,
    zh: Seq<char>,
    en: Seq<char>,
)
    requires
        settings_fault(settings, base_url) == Some(ErrorView::Localized { key, zh, en }),
    ensures
        ({
            let has_env = settings.member("env"@) matches Some(env) && env is Object;
            let has_url = base_url matches Some((scheme, host)) && host is Some && (scheme
                == "http"@ || scheme == "https"@);
            &&& !(settings is Object) ==> key == "provider.cursor.settings.not_object"@
            &&& settings is Object && !has_env ==> key == "provider.cursor.env.missing"@
            &&& settings is Object && has_env && !has_url ==> key
                == "provider.cursor.base_url.invalid"@
            &&& settings is Object && has_env && has_url ==> key
                == "provider.cursor.api_key.missing"@
        }),
{
}

/// A snapshot says which provider it is of, and holds every setting of that
/// provider but one of the same name as the mark.
pub proof fn law_snapshot_names_the_provider(
    document: JsonValue,
    settings: JsonValue,
    id: Seq<char>,
    name: Seq<char>,
    key: Seq<char>,
)
    requires
        is_snapshot(document, settings, id, name),
    ensures
        text_of(member_of(document.member("ccSwitch"@), "providerId"@)) == Some(id),
        text_of(member_of(document.member("ccSwitch"@), "providerName"@)) == Some(name),
        key != "ccSwitch"@ ==> document.member(key) == settings.member(key),
        key != "providerId"@ && key != "providerName"@ ==> member_of(
            document.member("ccSwitch"@),
            key,
        ) is None,
{
    if let Some(JsonValue::Object(mark)) = document.member("ccSwitch"@) {
        assert(mark@.dom().contains(key) == set!["providerId"@, "providerName"@].contains(key));
    }
}

/// The entries that make the IDE use a key switch it on, and hold the key, the
/// base URL and, where there is one, the model, each as a JSON string.
pub proof fn law_what_the_ide_is_told(
    base_url: Seq<char>,
    api_key: Seq<char>,
    model: Seq<char>,
    i: int,
)
    requires
        0 <= i < byok_items(base_url, api_key, model).len(),
    ensures
        ({
            let (name, value) = byok_items(base_url, api_key, model)[i];
            let text = decode_utf8(value);
            ||| (name == "useOpenAIKey"@ || name == "cursorai/useOpenAIKey"@) && text == "true"@
            ||| (name == "openaiKey"@ || name == "openaiApiKey"@ || name == "cursorai/openaiKey"@)
                && text == json_quoted(api_key)
            ||| (name == "openaiBaseUrl"@ || name == "cursorai/openaiBaseUrl"@) && text
                == json_quoted(base_url)
            ||| name == "openaiModel"@ && model.len() > 0 && text == json_quoted(model)
        }),
{
    vstd::utf8::encode_utf8_decode_utf8("true"@);
    vstd::utf8::encode_utf8_decode_utf8(json_quoted(api_key));
    vstd::utf8::encode_utf8_decode_utf8(json_quoted(base_url));
    vstd::utf8::encode_utf8_decode_utf8(json_quoted(model));
}

/// No entry is left out, and each is written once.
pub proof fn law_the_ide_is_told_everything(
    base_url: Seq<char>,
    api_key: Seq<char>,
    model: Seq<char>,
)
    ensures
        ({
            let names = byok_items(base_url, api_key, model).map_values(
                |entry: (Seq<char>, Seq<u8>)| entry.0,
            );
            &&& names.take(7) == seq![
                "useOpenAIKey"@,
                "openaiKey"@,
                "openaiBaseUrl"@,
                "openaiApiKey"@,
                "cursorai/openaiKey"@,
                "cursorai/openaiBaseUrl"@,
                "cursorai/useOpenAIKey"@,
            ]
            &&& model.len() == 0 ==> names.len() == 7
            &&& model.len() > 0 ==> names.len() == 8 && names[7] == "openaiModel"@
        }),
{
}

/// Where the IDE keeps its state on each platform; on Windows that depends on
/// the directory for application data alone.
pub proof fn law_where_the_state_is(
    appdata: Seq<char>,
    other: Option<Seq<char>>,
    home: Seq<char>,
)
    ensures
        ide_state_db(Platform::Windows, Some(appdata), home) == Some(
            LocationView {
                base: appdata,
                parts: seq!["Cursor"@, "User"@, "globalStorage"@, "state.vscdb"@],
            },
        ),
        ide_state_db(Platform::Windows, None, home) is None,
        ide_state_db(Platform::MacOs, other, home) == Some(
            LocationView {
                base: home,
                parts: seq![
                    "Library"@,
                    "Application Support"@,
                    "Cursor"@,
                    "User"@,
                    "globalStorage"@,
                    "state.vscdb"@,
                ],
            },
        ),
        ide_state_db(Platform::Unix, other, home) == Some(
            LocationView {
                base: home,
                parts: seq![".config"@, "Cursor"@, "User"@, "globalStorage"@, "state.vscdb"@],
            },
        ),
{
    assert(ide_state_db(Platform::Windows, Some(appdata), home)->0.parts =~= seq![
        "Cursor"@,
        "User"@,
        "globalStorage"@,
        "state.vscdb"@,
    ]);
    assert(ide_state_db(Platform::MacOs, other, home)->0.parts =~= seq![
        "Library"@,
        "Application Support"@,
        "Cursor"@,
        "User"@,
        "globalStorage"@,
        "state.vscdb"@,
    ]);
    assert(ide_state_db(Platform::Unix, other, home)->0.parts =~= seq![
        ".config"@,
        "Cursor"@,
        "User"@,
        "globalStorage"@,
        "state.vscdb"@,
    ]);
}

/// The login is looked for in the IDE's own directory first, then in the shared
/// one in the home directory, except on Windows, and last in the configured
/// directory.
pub proof fn law_where_the_login_is(
    platform: Platform,
    appdata: Option<Seq<char>>,
    home: Seq<char>,
    custom: Seq<char>,
)
    ensures
        ({
            let paths = auth_json_paths(platform, appdata, home, Some(custom));
            let shared = LocationView { base: home, parts: seq![".cursor"@, "auth.json"@] };
            let last = LocationView { base: custom, parts: seq!["auth.json"@] };
            &&& platform == Platform::Windows && appdata is Some ==> paths == seq![
                (LocationView { base: appdata->0, parts: seq!["Cursor"@, "auth.json"@] }),
                last,
            ]
            &&& platform == Platform::Windows && appdata is None ==> paths == seq![last]
            &&& platform == Platform::MacOs ==> paths == seq![
                (LocationView {
                    base: home,
                    parts: seq![
                        "Library"@,
                        "Application Support"@,
                        "Cursor"@,
                        "auth.json"@,
                    ],
                }),
                shared,
                last,
            ]
            &&& platform == Platform::Unix ==> paths == seq![
                (LocationView { base: home, parts: seq![".config"@, "Cursor"@, "auth.json"@] }),
                shared,
                last,
            ]
        }),
{
    let paths = auth_json_paths(platform, appdata, home, Some(custom));
    let shared = LocationView { base: home, parts: seq![".cursor"@, "auth.json"@] };
    let last = LocationView { base: custom, parts: seq!["auth.json"@] };
    assert(root_at(custom).child("auth.json"@) =~= last);
    assert(root_at(home).child(".cursor"@).child("auth.json"@) =~= shared);
    match platform {
        Platform::Windows => {
            if let Some(dir) = appdata {
                let own = LocationView { base: dir, parts: seq!["Cursor"@, "auth.json"@] };
                assert(root_at(dir).child("Cursor"@).child("auth.json"@) =~= own);
                assert(paths =~= seq![own, last]);
            } else {
                assert(paths =~= seq![last]);
            }
        },
        Platform::MacOs => {
            let own = LocationView {
                base: home,
                parts: seq!["Library"@, "Application Support"@, "Cursor"@, "auth.json"@],
            };
            assert(root_at(home).child("Library"@).child("Application Support"@).child(
                "Cursor"@,
            ).child("auth.json"@) =~= own);
            assert(paths =~= seq![own, shared, last]);
        },
        Platform::Unix => {
            let own = LocationView {
                base: home,
                parts: seq![".config"@, "Cursor"@, "auth.json"@],
            };
            assert(root_at(home).child(".config"@).child("Cursor"@).child("auth.json"@) =~= own);
            assert(paths =~= seq![own, shared, last]);
        },
    }
}

/// The token of a login document is the text under `accessToken`, without the
/// white space around it, unless it is blank.
pub proof fn law_token_of_a_login_document(
    members: Seq<(Seq<char>, Option<Seq<char>>)>,
    i: int,
    s: Seq<char>,
)
    requires
        0 <= i < members.len(),
        members[i].0 == "accessToken"@,
        forall|j: int| 0 <= j < i ==> (#[trigger] members[j]).0 != "accessToken"@,
    ensures
        members[i].1 == Some(s) && trimmed(s).len() > 0 ==> document_token(
            DocumentView::Object(members),
        ) == Some(trimmed(s)),
        members[i].1 == Some(s) && trimmed(s).len() == 0 ==> document_token(
            DocumentView::Object(members),
        ) is None,
        members[i].1 is None ==> document_token(DocumentView::Object(members)) is None,
{
    lemma_string_under(members, "accessToken"@, i);
}

/// A document without `accessToken`, and one that is no object, has no token.
pub proof fn law_documents_without_a_token(
    members: Seq<(Seq<char>, Option<Seq<char>>)>,
    s: Seq<char>,
)
    requires
        forall|j: int| 0 <= j < members.len() ==> (#[trigger] members[j]).0 != "accessToken"@,
    ensures
        document_token(DocumentView::Object(members)) is None,
        document_token(DocumentView::Text(s)) is None,
        document_token(DocumentView::Malformed) is None,
        document_token(DocumentView::Other) is None,
        item_token(DocumentView::Object(members)) is None,
        item_token(DocumentView::Malformed) is None,
        item_token(DocumentView::Other) is None,
        trimmed(s).len() > 0 ==> item_token(DocumentView::Text(s)) == Some(trimmed(s)),
        trimmed(s).len() == 0 ==> item_token(DocumentView::Text(s)) is None,
{
    lemma_string_under(members, "accessToken"@, members.len() as int);
}

proof fn lemma_string_under(
    members: Seq<(Seq<char>, Option<Seq<char>>)>,
    key: Seq<char>,
    i: int,
)
    requires
        0 <= i <= members.len(),
        i < members.len() ==> members[i].0 == key,
        forall|j: int| 0 <= j < i ==> (#[trigger] members[j]).0 != key,
    ensures
        string_under(members, key) == if i < members.len() {
            members[i].1
        } else {
            None
        },
    decreases members.len(),
{
    if i > 0 {
        assert forall|j: int| 0 <= j < i - 1 implies (#[trigger] members.drop_first()[j]).0
            != key by {
            assert(members.drop_first()[j] == members[j + 1]);
        }
        lemma_string_under(members.drop_first(), key, i - 1);
    }
}

/// An entry of the state database that begins like a token is one itself;
/// another entry is taken for a JSON document, and bytes that are no text hold
/// no token.
pub proof fn law_token_of_an_entry(raw: Seq<u8>)
    ensures
        state_token(None) is None,
        !valid_utf8(raw) ==> state_token(Some(raw)) is None,
        valid_utf8(raw) && has_prefix(trimmed(decode_utf8(raw)), "eyJ"@) ==> state_token(Some(raw))
            == Some(trimmed(decode_utf8(raw))),
        valid_utf8(raw) && !has_prefix(trimmed(decode_utf8(raw)), "eyJ"@) ==> state_token(Some(raw))
            == item_token(json_document(trimmed(decode_utf8(raw)))),
{
}

/// The first login file that holds a token gives it, whatever the later ones
/// hold.
pub proof fn law_first_login_file_counts(texts: Seq<Option<String>>, i: int)
    requires
        0 <= i < texts.len(),
        texts[i] matches Some(text) && document_token(json_document(text@)) is Some,
        forall|j: int|
            0 <= j < i ==> ((#[trigger] texts[j]) matches Some(text) ==> document_token(
                json_document(text@),
            ) is None),
    ensures
        first_auth_token(texts) == document_token(json_document(texts[i]->0@)),
    decreases texts.len(),
{
    if i > 0 {
        let rest = texts.drop_first();
        assert(texts[0] matches Some(text) ==> document_token(json_document(text@)) is None);
        assert(rest[i - 1] == texts[i]);
        assert forall|j: int| 0 <= j < i - 1 implies ((#[trigger] rest[j]) matches Some(text)
            ==> document_token(json_document(text@)) is None) by {
            assert(rest[j] == texts[j + 1]);
        }
        law_first_login_file_counts(rest, i - 1);
    }
}

/// Login files without a token give none.
pub proof fn law_no_login_file_no_token(texts: Seq<Option<String>>)
    requires
        forall|j: int|
            0 <= j < texts.len() ==> ((#[trigger] texts[j]) matches Some(text) ==> document_token(
                json_document(text@),
            ) is None),
    ensures
        first_auth_token(texts) is None,
    decreases texts.len(),
{
    if texts.len() > 0 {
        let rest = texts.drop_first();
        assert(texts[0] matches Some(text) ==> document_token(json_document(text@)) is None);
        assert forall|j: int| 0 <= j < rest.len() implies ((#[trigger] rest[j]) matches Some(text)
            ==> document_token(json_document(text@)) is None) by {
            assert(rest[j] == texts[j + 1]);
        }
        law_no_login_file_no_token(rest);
    }
}

/// Where a login file holds a token the state database is not asked, whatever
/// it holds; where none does its token counts.
pub proof fn law_login_files_come_first(
    texts: Seq<Option<String>>,
    state: Option<Seq<u8>>,
    other: Option<Seq<u8>>,
)
    ensures
        first_auth_token(texts) is Some ==> access_token(texts, state) == first_auth_token(texts)
            && access_token(texts, other) == access_token(texts, state),
        first_auth_token(texts) is None ==> access_token(texts, state) == state_token(state),
{
}

} // verus!
