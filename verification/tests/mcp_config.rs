use rab_browser::{
    add_server_entry, config_shape_error, mcp_client_config_path, mcp_config_format,
    merged_config_text, ConfigMember, ConfigSection, McpConfigFormat, SERVER_ENTRY_NAME,
};
use serde_json::Value;

/// The JSON file after registering `executable` with a client of `format`.
fn merged_json(existing: Option<&str>, format: McpConfigFormat, executable: &str) -> Result<Value, String> {
    let text = merged_config_text(existing, format, executable)?;
    assert!(text.ends_with('\n'));
    Ok(serde_json::from_str(&text).unwrap())
}

/// The TOML file after registering `executable` with Codex.
fn merged_toml(existing: &str, executable: &str) -> toml::Value {
    let text = merged_config_text(Some(existing), McpConfigFormat::CodexToml, executable).unwrap();
    toml::from_str(&text).unwrap()
}

fn json(text: &str) -> Value {
    serde_json::from_str(text).unwrap()
}

#[test]
fn creates_a_missing_mcp_client_config() {
    assert_eq!(
        mcp_client_config_path("/Users/me", "cursor").as_deref(),
        Some("/Users/me/.cursor/mcp.json")
    );
    let executable = "/Applications/rab-browser.app/Contents/MacOS/rab-browser";
    assert_eq!(
        merged_json(None, mcp_config_format("cursor"), executable),
        Ok(json(
            r#"{"mcpServers":{"rab-browser":{"command":"/Applications/rab-browser.app/Contents/MacOS/rab-browser","args":["--mcp"]}}}"#
        ))
    );
}

#[test]
fn adds_mcp_servers_to_an_existing_config_without_that_key() {
    let config = merged_json(
        Some(r#"{"theme":"dark"}"#),
        McpConfigFormat::McpServersJson,
        "/usr/local/bin/rab-browser",
    )
    .unwrap();
    assert_eq!(config["theme"], "dark");
    assert_eq!(
        config["mcpServers"]["rab-browser"],
        json(r#"{"command":"/usr/local/bin/rab-browser","args":["--mcp"]}"#)
    );
}

#[test]
fn replaces_an_old_entry_and_keeps_other_servers() {
    let config = merged_json(
        Some(r#"{"mcpServers":{"other":{"command":"other"},"rab-browser":{"command":"old"}}}"#),
        mcp_config_format("cursor"),
        "/opt/rab-browser",
    )
    .unwrap();
    assert_eq!(config["mcpServers"]["other"], json(r#"{"command":"other"}"#));
    assert_eq!(
        config["mcpServers"]["rab-browser"],
        json(r#"{"command":"/opt/rab-browser","args":["--mcp"]}"#)
    );
}

#[test]
fn creates_a_missing_zed_config() {
    assert_eq!(
        mcp_client_config_path("/home/me", "zed").as_deref(),
        Some("/home/me/.config/zed/settings.json")
    );
    assert_eq!(
        merged_json(None, mcp_config_format("zed"), "/opt/rab-browser"),
        Ok(json(
            r#"{"context_servers":{"rab-browser":{"source":"custom","command":"/opt/rab-browser","args":["--mcp"]}}}"#
        ))
    );
}

#[test]
fn preserves_existing_zed_settings_and_context_servers() {
    let config = merged_json(
        Some(
            r#"{"ui_font_size":16,"theme":{"mode":"dark"},"context_servers":{"other":{"source":"custom","command":"other"}}}"#,
        ),
        McpConfigFormat::ZedContextServers,
        "/opt/rab-browser",
    )
    .unwrap();
    assert_eq!(config["ui_font_size"], 16);
    assert_eq!(config["theme"], json(r#"{"mode":"dark"}"#));
    assert_eq!(
        config["context_servers"]["other"],
        json(r#"{"source":"custom","command":"other"}"#)
    );
    assert_eq!(
        config["context_servers"]["rab-browser"],
        json(r#"{"source":"custom","command":"/opt/rab-browser","args":["--mcp"]}"#)
    );
}

#[test]
fn creates_a_missing_codex_config() {
    assert_eq!(
        mcp_client_config_path("/home/me", "codex").as_deref(),
        Some("/home/me/.codex/config.toml")
    );
    assert_eq!(mcp_config_format("codex"), McpConfigFormat::CodexToml);
    let text = merged_config_text(None, McpConfigFormat::CodexToml, "/opt/rab-browser").unwrap();
    let config: toml::Value = toml::from_str(&text).unwrap();
    assert_eq!(
        config["mcp_servers"]["rab-browser"]["command"].as_str(),
        Some("/opt/rab-browser")
    );
    assert_eq!(
        config["mcp_servers"]["rab-browser"]["args"].as_array().unwrap(),
        &[toml::Value::String("--mcp".to_owned())]
    );
}

#[test]
fn preserves_existing_codex_settings_and_mcp_servers() {
    let config = merged_toml(
        r#"model = "gpt-5"

[history]
persistence = "save-all"

[mcp_servers.other]
command = "other"
args = ["--serve"]
"#,
        "/opt/rab-browser",
    );
    assert_eq!(config["model"].as_str(), Some("gpt-5"));
    assert_eq!(config["history"]["persistence"].as_str(), Some("save-all"));
    assert_eq!(config["mcp_servers"]["other"]["command"].as_str(), Some("other"));
    assert_eq!(
        config["mcp_servers"]["other"]["args"].as_array().unwrap(),
        &[toml::Value::String("--serve".to_owned())]
    );
    assert_eq!(
        config["mcp_servers"]["rab-browser"]["command"].as_str(),
        Some("/opt/rab-browser")
    );
}

#[test]
fn creates_a_missing_opencode_config() {
    assert_eq!(
        mcp_client_config_path("/home/me", "opencode").as_deref(),
        Some("/home/me/.config/opencode/opencode.json")
    );
    assert_eq!(
        merged_json(None, mcp_config_format("opencode"), "/opt/rab-browser"),
        Ok(json(
            r#"{"mcp":{"rab-browser":{"type":"local","command":["/opt/rab-browser","--mcp"],"enabled":true}}}"#
        ))
    );
}

#[test]
fn preserves_existing_opencode_settings_and_mcp_servers() {
    let config = merged_json(
        Some(
            r#"{"theme":"system","provider":{"anthropic":{"options":{"timeout":30000}}},"mcp":{"other":{"type":"local","command":["other"]}}}"#,
        ),
        McpConfigFormat::OpencodeMcp,
        "/opt/rab-browser",
    )
    .unwrap();
    assert_eq!(config["theme"], "system");
    assert_eq!(config["provider"]["anthropic"]["options"]["timeout"], 30000);
    assert_eq!(config["mcp"]["other"], json(r#"{"type":"local","command":["other"]}"#));
    assert_eq!(
        config["mcp"]["rab-browser"],
        json(r#"{"type":"local","command":["/opt/rab-browser","--mcp"],"enabled":true}"#)
    );
}

#[test]
fn windsurf_and_antigravity_use_the_common_layout() {
    assert_eq!(
        mcp_client_config_path("/opt/home", "windsurf").as_deref(),
        Some("/opt/home/.codeium/windsurf/mcp_config.json")
    );
    assert_eq!(
        mcp_client_config_path("/opt/home", "antigravity").as_deref(),
        Some("/opt/home/.gemini/config/mcp_config.json")
    );
    assert_eq!(mcp_config_format("windsurf"), McpConfigFormat::McpServersJson);
    assert_eq!(mcp_config_format("antigravity"), McpConfigFormat::McpServersJson);
}

#[test]
fn refuses_documents_of_the_wrong_shape() {
    assert_eq!(
        merged_json(Some("[1,2]"), McpConfigFormat::McpServersJson, "/x"),
        Err("configuration root must be a JSON object".to_owned())
    );
    assert_eq!(
        merged_json(Some(r#"{"mcp":"on"}"#), McpConfigFormat::OpencodeMcp, "/x"),
        Err("mcp must be a JSON object".to_owned())
    );
    let entry: Vec<(String, ConfigMember<u8>)> = vec![("mcp_servers".to_owned(), ConfigMember::Value(1))];
    assert_eq!(
        add_server_entry(Some(entry), McpConfigFormat::CodexToml, 2).err().as_deref(),
        Some("mcp_servers must be a TOML table")
    );
    assert_eq!(
        add_server_entry::<u8>(None, McpConfigFormat::CodexToml, 2).err().as_deref(),
        Some("configuration root must be a TOML table")
    );
}

#[test]
fn registering_twice_changes_nothing_more() {
    let once = merged_json(Some(r#"{"a":1,"mcpServers":{"b":{}}}"#), McpConfigFormat::McpServersJson, "/x")
        .unwrap();
    let twice = merged_json(Some(&once.to_string()), McpConfigFormat::McpServersJson, "/x").unwrap();
    assert_eq!(once, twice);
    assert_eq!(SERVER_ENTRY_NAME, "rab-browser");
}

#[test]
fn shape_errors_name_the_offending_part() {
    assert_eq!(
        config_shape_error(McpConfigFormat::McpServersJson, false, ConfigSection::Table).as_deref(),
        Some("configuration root must be a JSON object")
    );
    assert_eq!(
        config_shape_error(McpConfigFormat::CodexToml, false, ConfigSection::Absent).as_deref(),
        Some("configuration root must be a TOML table")
    );
    assert_eq!(
        config_shape_error(McpConfigFormat::McpServersJson, true, ConfigSection::Other).as_deref(),
        Some("mcpServers must be a JSON object")
    );
    assert_eq!(
        config_shape_error(McpConfigFormat::ZedContextServers, true, ConfigSection::Other)
            .as_deref(),
        Some("context_servers must be a JSON object")
    );
    assert_eq!(
        config_shape_error(McpConfigFormat::OpencodeMcp, true, ConfigSection::Other).as_deref(),
        Some("mcp must be a JSON object")
    );
    assert_eq!(
        config_shape_error(McpConfigFormat::CodexToml, true, ConfigSection::Other).as_deref(),
        Some("mcp_servers must be a TOML table")
    );
    assert_eq!(config_shape_error(McpConfigFormat::CodexToml, true, ConfigSection::Table), None);
}

#[test]
fn writes_pretty_json_and_reports_unreadable_files() {
    assert_eq!(
        merged_config_text(None, McpConfigFormat::McpServersJson, "/x"),
        Ok("{\n  \"mcpServers\": {\n    \"rab-browser\": {\n      \"args\": [\n        \"--mcp\"\n      ],\n      \"command\": \"/x\"\n    }\n  }\n}\n".to_owned())
    );
    assert!(merged_config_text(Some("{"), McpConfigFormat::McpServersJson, "/x").is_err());
    assert!(merged_config_text(Some("= 1"), McpConfigFormat::CodexToml, "/x").is_err());
    assert_eq!(
        merged_config_text(Some("mcp_servers = 3"), McpConfigFormat::CodexToml, "/x"),
        Err("mcp_servers must be a TOML table".to_owned())
    );
}
