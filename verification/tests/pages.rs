use rab_browser::{chrome_fallback_html, internal_page, Theme};

// `rab://newtab/` has host `newtab` and path `/`; `rab://unknown/` has host `unknown`.

#[test]
fn serves_all_internal_pages_through_the_rab_protocol() {
    let response = internal_page(Some("newtab"), "/", Theme::Dark);
    assert_eq!(response.status, 200);
    assert_eq!(response.content_type, "text/html; charset=utf-8");
    assert!(response.body.contains("新しいタブ"));
}

#[test]
fn serves_internal_pages_with_the_selected_theme() {
    let themes = [
        (Theme::Dark, "color-scheme:dark", "#171816", "#a2a59d"),
        (Theme::Light, "color-scheme:light", "#f3f2eb", "#60645a"),
    ];

    for (theme, color_scheme, background, muted_text) in themes {
        let html = internal_page(Some("newtab"), "/", theme).body;

        assert!(html.contains(color_scheme));
        assert!(html.contains(background));
        assert!(html.contains(muted_text));
    }
}

#[test]
fn rejects_unknown_internal_pages() {
    let response = internal_page(Some("unknown"), "/", Theme::Dark);

    assert_eq!(response.status, 404);
}

#[test]
fn fallback_chrome_page_follows_the_theme() {
    assert!(chrome_fallback_html(Theme::Dark).contains("background:#171816;color:#e9e9e3"));
    assert!(chrome_fallback_html(Theme::Light).contains("background:#f3f2eb;color:#292a25"));
    assert_eq!(internal_page(None, "/", Theme::Light).body, "Not Found");
}
