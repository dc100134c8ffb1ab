//! The browser's own pages, served under the `rab` scheme, and the stand-in chrome page.

use vstd::prelude::*;
use vstd::string::StringExecFns;

use crate::settings::Theme;
use crate::text::str_eq;

verus! {

/// The scheme under which the browser serves its own pages.
pub const INTERNAL_PROTOCOL: &'static str = "rab";

/// A response to a request for one of the browser's own pages.
#[derive(Clone, Debug, PartialEq, Eq)]
pub struct InternalPage {
    pub status: u16,
    pub content_type: &'static str,
    pub body: String,
}

/// Colour scheme, background and muted text colour of the new-tab page.
pub open spec fn new_tab_colors(theme: Theme) -> (Seq<char>, Seq<char>, Seq<char>) {
    match theme {
        Theme::Dark => ("dark"@, "#171816"@, "#a2a59d"@),
        Theme::Light => ("light"@, "#f3f2eb"@, "#60645a"@),
    }
}

/// The HTML of the new-tab page in `theme`.
pub open spec fn new_tab_html(theme: Theme) -> Seq<char> {
    let (scheme, background, color) = new_tab_colors(theme);
    "<!doctype html><html lang=\"ja\"><head><meta charset=\"utf-8\"><title>新しいタブ</title><style>:root{color-scheme:"@
        + scheme + "}html,body{height:100%}body{margin:0;display:grid;place-items:center;background:"@
        + background + ";color:"@ + color
        + ";font:14px system-ui,sans-serif}</style></head><body>新しいタブ</body></html>"@
}

/// Builds the new-tab page in `theme`.
pub fn new_tab_page(theme: Theme) -> (r: String)
    ensures
        r@ == new_tab_html(theme),
{
    let (scheme, background, color) = match theme {
        Theme::Dark => ("dark", "#171816", "#a2a59d"),
        Theme::Light => ("light", "#f3f2eb", "#60645a"),
    };
    let mut html =
        "<!doctype html><html lang=\"ja\"><head><meta charset=\"utf-8\"><title>新しいタブ</title><style>:root{color-scheme:".to_owned();
    html.append(scheme);
    html.append("}html,body{height:100%}body{margin:0;display:grid;place-items:center;background:");
    html.append(background);
    html.append(";color:");
    html.append(color);
    html.append(";font:14px system-ui,sans-serif}</style></head><body>新しいタブ</body></html>");
    html
}

/// The response for a `rab` URL with host `host` and path `path`: the new-tab page for
/// `rab://newtab/`, and "Not Found" for anything else.
pub open spec fn internal_response(host: Option<Seq<char>>, path: Seq<char>, theme: Theme) -> (
    u16,
    Seq<char>,
    Seq<char>,
) {
    if host == Some("newtab"@) && path == "/"@ {
        (200, "text/html; charset=utf-8"@, new_tab_html(theme))
    } else {
        (404, "text/plain; charset=utf-8"@, "Not Found"@)
    }
}

/// Answers a request for one of the browser's own pages.
pub fn internal_page(host: Option<&str>, path: &str, theme: Theme) -> (r: InternalPage)
    ensures
        (r.status, r.content_type@, r.body@) == internal_response(
            match host {
                Some(h) => Some(h@),
                None => None,
            },
            path@,
            theme,
        ),
{
    let is_new_tab = match host {
        Some(h) => str_eq(h, "newtab") && str_eq(path, "/"),
        None => false,
    };
    if is_new_tab {
        InternalPage {
            status: 200,
            content_type: "text/html; charset=utf-8",
            body: new_tab_page(theme),
        }
    } else {
        InternalPage {
            status: 404,
            content_type: "text/plain; charset=utf-8",
            body: "Not Found".to_owned(),
        }
    }
}

/// Background and text colour of the stand-in chrome page.
pub open spec fn fallback_colors(theme: Theme) -> (Seq<char>, Seq<char>) {
    match theme {
        Theme::Dark => ("#171816"@, "#e9e9e3"@),
        Theme::Light => ("#f3f2eb"@, "#292a25"@),
    }
}

/// The page shown in place of the chrome UI when its build output is missing.
pub open spec fn chrome_fallback(theme: Theme) -> Seq<char> {
    let (background, color) = fallback_colors(theme);
    "<!doctype html><body style=\"margin:0;background:"@ + background + ";color:"@ + color
        + ";font:14px sans-serif;padding:24px\">base-ui is not built.<br><br>Run <code>pnpm --dir base-ui build</code>.</body>"@
}

/// Builds the stand-in chrome page in `theme`.
pub fn chrome_fallback_html(theme: Theme) -> (r: String)
    ensures
        r@ == chrome_fallback(theme),
{
    let (background, color) = match theme {
        Theme::Dark => ("#171816", "#e9e9e3"),
        Theme::Light => ("#f3f2eb", "#292a25"),
    };
    let mut html = "<!doctype html><body style=\"margin:0;background:".to_owned();
    html.append(background);
    html.append(";color:");
    html.append(color);
    html.append(
        ";font:14px sans-serif;padding:24px\">base-ui is not built.<br><br>Run <code>pnpm --dir base-ui build</code>.</body>",
    );
    html
}

} // verus!
