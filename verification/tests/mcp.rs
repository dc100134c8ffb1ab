use rab_browser::{
    click_script, evaluate_script, get_dom_script, get_text_script, js_string,
    mcp_client_config_path, mcp_config_format, register_mcp_clients, resolve_eval_target,
    tab_infos, type_script, wrapped_script, DispatchError, McpConfigFormat, RequestFailure,
    TabManager,
};

#[test]
fn config_paths_live_under_home() {
    assert_eq!(
        mcp_client_config_path("/home/me", "cursor").as_deref(),
        Some("/home/me/.cursor/mcp.json")
    );
    assert_eq!(
        mcp_client_config_path("/home/me/", "codex").as_deref(),
        Some("/home/me/.codex/config.toml")
    );
    assert_eq!(
        mcp_client_config_path("/Users/x", "zed").as_deref(),
        Some("/Users/x/.config/zed/settings.json")
    );
    assert_eq!(mcp_client_config_path("/home/me", "emacs"), None);
    assert_eq!(mcp_config_format("zed"), McpConfigFormat::ZedContextServers);
    assert_eq!(mcp_config_format("codex"), McpConfigFormat::CodexToml);
    assert_eq!(mcp_config_format("opencode"), McpConfigFormat::OpencodeMcp);
    assert_eq!(mcp_config_format("cursor"), McpConfigFormat::McpServersJson);
}

#[test]
fn reports_each_client_once() {
    let clients = ["cursor", "emacs", "codex"].map(str::to_owned);
    let outcomes = [Some(Ok(())), None, Some(Err("permission denied".to_owned()))];
    let report = register_mcp_clients(&clients, &outcomes);
    assert_eq!(report.registered, ["cursor"]);
    assert_eq!(report.errors.len(), 2);
    assert_eq!(report.errors[0].client, "emacs");
    assert_eq!(report.errors[0].message, "unsupported MCP client");
    assert_eq!(report.errors[1].client, "codex");
    assert_eq!(report.errors[1].message, "permission denied");
}

#[test]
fn quotes_strings_for_javascript() {
    assert_eq!(js_string("#submit"), "\"#submit\"");
    assert_eq!(js_string("a\"b\\c\nd\u{1}"), "\"a\\\"b\\\\c\\nd\\u0001\"");
    assert_eq!(js_string("日本"), "\"日本\"");
}

#[test]
fn tool_scripts_find_the_element_and_report_errors() {
    let click = click_script("#submit");
    assert!(click.contains("querySelector(\"#submit\")"));
    assert!(click.contains("try{"));
    assert_eq!(
        wrapped_script("return 1;"),
        "(async()=>{try{return 1;}catch(e){return 'ERR:'+(e?.message??String(e));}})()"
    );
    assert!(get_dom_script(None).contains("querySelector(\"html\")"));
    assert!(get_dom_script(None).contains("return el.outerHTML;"));
    assert!(get_text_script(Some("p")).contains("querySelector(\"p\")"));
    assert!(evaluate_script("1+1").contains("return await eval(\"1+1\");"));
    assert!(type_script("#q", "hi").contains("el.value=\"hi\";"));
}

#[test]
fn lists_tabs_and_resolves_script_targets() {
    let mut tabs = TabManager::new();
    assert_eq!(resolve_eval_target(&tabs, None), Err("no active tab"));
    let a = tabs.add_tab("https://a.example");
    let b = tabs.add_tab("https://b.example");
    let infos = tab_infos(&tabs);
    assert_eq!(infos.len(), 2);
    assert_eq!(infos[0].id, a.get());
    assert!(!infos[0].active);
    assert!(infos[1].active);
    assert_eq!(infos[1].url, "https://b.example");
    assert_eq!(resolve_eval_target(&tabs, None), Ok(b));
    assert_eq!(resolve_eval_target(&tabs, Some(a.get())), Ok(a));
    assert_eq!(resolve_eval_target(&tabs, Some(42)), Err("target tab not found"));
    assert_eq!(DispatchError::LoopClosed.message(), "browser event loop is closed");
}

#[test]
fn javascript_tools_use_eval_requests() {
    let script = click_script("#submit");
    assert!(script.contains("querySelector"));
    assert!(script.contains("try{"));
    assert!(script.contains("#submit"));
    let mut tabs = TabManager::new();
    let mut seventh = None;
    for n in 1..=7 {
        seventh = Some(tabs.add_tab(&format!("https://{n}.example")));
    }
    let seventh = seventh.unwrap();
    assert_eq!(seventh.get(), 7);
    assert_eq!(resolve_eval_target(&tabs, Some(7)), Ok(seventh));
}

#[test]
fn reports_dispatch_and_response_errors() {
    let dispatch_error = RequestFailure::Dispatch(DispatchError::LoopClosed);
    assert!(dispatch_error.message().contains("event loop is closed"));
    assert!(RequestFailure::Dropped.message().contains("dropped"));
}

#[test]
fn times_out_when_browser_does_not_reply() {
    assert!(RequestFailure::TimedOut.message().contains("timed out"));
}
