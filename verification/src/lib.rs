//! GUI-independent state and decision logic of the rab browser.

mod bookmarks;
mod chrome_state;
mod client_config;
mod config_text;
mod engine;
mod eval_reply;
mod events;
mod history;
mod mcp_clients;
mod mcp_tools;
mod navigation;
mod pages;
mod settings;
mod startup;
mod suspend;
mod tab_history;
mod tabs;
mod text;
mod url_input;

pub use bookmarks::{Bookmark, BookmarkManager};
pub use chrome_state::{tab_states, TabState};
pub use client_config::{add_server_entry, ConfigMember};
pub use config_text::merged_config_text;
pub use engine::{BrowserEngine, BrowserError};
pub use eval_reply::{decode_reply, eval_result, JsonMember};
pub use events::{
    close_tab_state, on_content_url_changed, on_favicon_changed, on_navigated, on_page_loaded,
    on_tab_opened, on_title_changed, plan_navigation, step_history, switch_selection,
    toggle_current_bookmark, CloseTabOutcome,
    HistoryStep, NavigationPlan,
};
pub use history::{HistoryEntry, HistoryManager, DEFAULT_HISTORY_CAPACITY};
pub use mcp_clients::{
    config_shape_error, mcp_client_config_path, mcp_config_format, register_mcp_clients,
    server_entry, ConfigSection, EntryValue, McpConfigFormat, McpRegistrationError,
    McpRegistrationState, SERVER_ENTRY_NAME,
};
pub use mcp_tools::{
    click_script, evaluate_script, get_dom_script, get_text_script, js_string, resolve_eval_target,
    tab_infos, type_script, wrapped_script, DispatchError, RequestFailure, TabInfo,
};
pub use navigation::{
    current_tab_is_new, is_new_tab_url, is_only_new_tab, resolve_tab_id, update_history_flags,
    NEW_TAB_URL,
};
pub use pages::{
    chrome_fallback_html, internal_page, new_tab_page, InternalPage, INTERNAL_PROTOCOL,
};
pub use settings::{
    clamp_tab_suspend_grace, AppSettings, Locale, SearchEngine, Theme, DEFAULT_TAB_SUSPEND_GRACE_SECS,
    MAX_TAB_SUSPEND_GRACE_SECS, MIN_TAB_SUSPEND_GRACE_SECS,
};
pub use startup::{env_flag_enabled, parse_startup_args};
pub use suspend::{
    next_tab_suspend_deadline, restart_tab_suspend_grace, tab_suspend_deadline, tabs_to_suspend,
};
pub use tab_history::{TabHistory, TabHistoryView};
pub use tabs::{Tab, TabId, TabManager};
pub use text::str_eq;
pub use url_input::{
    is_likely_domain, is_visitable_host, normalize_url, resolve_address, search_url,
};
