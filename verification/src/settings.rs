use vstd::prelude::*;

use crate::text::str_eq;

verus! {

/// Search providers supported by the browser's address bar.
#[derive(Clone, Copy, Debug, PartialEq, Eq, Structural)]
pub enum SearchEngine {
    Google,
    DuckDuckGo,
    Bing,
}

impl SearchEngine {
    /// The name under which the engine is stored and exchanged with the UI.
    pub open spec fn name(self) -> Seq<char> {
        match self {
            SearchEngine::Google => "google"@,
            SearchEngine::DuckDuckGo => "duckduckgo"@,
            SearchEngine::Bing => "bing"@,
        }
    }

    /// The engine with the given name, if any.
    pub open spec fn from_name(value: Seq<char>) -> Option<SearchEngine> {
        if value == "google"@ {
            Some(SearchEngine::Google)
        } else if value == "duckduckgo"@ {
            Some(SearchEngine::DuckDuckGo)
        } else if value == "bing"@ {
            Some(SearchEngine::Bing)
        } else {
            None
        }
    }

    pub fn as_str(self) -> (r: &'static str)
        ensures
            r@ == self.name(),
    {
        match self {
            SearchEngine::Google => "google",
            SearchEngine::DuckDuckGo => "duckduckgo",
            SearchEngine::Bing => "bing",
        }
    }

    /// Looks an engine up by its name.
    pub fn parse_name(value: &str) -> (r: Option<SearchEngine>)
        ensures
            r == SearchEngine::from_name(value@),
    {
        if str_eq(value, "google") {
            Some(SearchEngine::Google)
        } else if str_eq(value, "duckduckgo") {
            Some(SearchEngine::DuckDuckGo)
        } else if str_eq(value, "bing") {
            Some(SearchEngine::Bing)
        } else {
            None
        }
    }
}

impl Default for SearchEngine {
    fn default() -> (r: Self)
        ensures
            r == SearchEngine::Google,
    {
        SearchEngine::Google
    }
}

impl std::str::FromStr for SearchEngine {
    type Err = ();

    fn from_str(value: &str) -> (r: Result<Self, Self::Err>)
        ensures
            r == match SearchEngine::from_name(value@) {
                Some(v) => Ok::<SearchEngine, ()>(v),
                None => Err(()),
            },
    {
        match SearchEngine::parse_name(value) {
            Some(engine) => Ok(engine),
            None => Err(()),
        }
    }
}

/// Color themes supported by the browser chrome.
#[derive(Clone, Copy, Debug, PartialEq, Eq, Structural)]
pub enum Theme {
    Dark,
    Light,
}

impl Theme {
    /// The name under which the theme is stored and exchanged with the UI.
    pub open spec fn name(self) -> Seq<char> {
        match self {
            Theme::Dark => "dark"@,
            Theme::Light => "light"@,
        }
    }

    /// The theme with the given name, if any.
    pub open spec fn from_name(value: Seq<char>) -> Option<Theme> {
        if value == "dark"@ {
            Some(Theme::Dark)
        } else if value == "light"@ {
            Some(Theme::Light)
        } else {
            None
        }
    }

    pub fn as_str(self) -> (r: &'static str)
        ensures
            r@ == self.name(),
    {
        match self {
            Theme::Dark => "dark",
            Theme::Light => "light",
        }
    }

    /// Looks a theme up by its name.
    pub fn parse_name(value: &str) -> (r: Option<Theme>)
        ensures
            r == Theme::from_name(value@),
    {
        if str_eq(value, "dark") {
            Some(Theme::Dark)
        } else if str_eq(value, "light") {
            Some(Theme::Light)
        } else {
            None
        }
    }
}

impl Default for Theme {
    fn default() -> (r: Self)
        ensures
            r == Theme::Dark,
    {
        Theme::Dark
    }
}

impl std::str::FromStr for Theme {
    type Err = ();

    fn from_str(value: &str) -> (r: Result<Self, Self::Err>)
        ensures
            r == match Theme::from_name(value@) {
                Some(v) => Ok::<Theme, ()>(v),
                None => Err(()),
            },
    {
        match Theme::parse_name(value) {
            Some(theme) => Ok(theme),
            None => Err(()),
        }
    }
}

/// Languages the browser chrome can be shown in.
#[derive(Clone, Copy, Debug, PartialEq, Eq, Structural)]
pub enum Locale {
    Ja,
    En,
}

impl Locale {
    /// The name under which the language is stored and exchanged with the UI.
    pub open spec fn name(self) -> Seq<char> {
        match self {
            Locale::Ja => "ja"@,
            Locale::En => "en"@,
        }
    }

    /// The language with the given name, if any.
    pub open spec fn from_name(value: Seq<char>) -> Option<Locale> {
        if value == "ja"@ {
            Some(Locale::Ja)
        } else if value == "en"@ {
            Some(Locale::En)
        } else {
            None
        }
    }

    pub fn as_str(self) -> (r: &'static str)
        ensures
            r@ == self.name(),
    {
        match self {
            Locale::Ja => "ja",
            Locale::En => "en",
        }
    }

    /// Looks a language up by its name.
    pub fn parse_name(value: &str) -> (r: Option<Locale>)
        ensures
            r == Locale::from_name(value@),
    {
        if str_eq(value, "ja") {
            Some(Locale::Ja)
        } else if str_eq(value, "en") {
            Some(Locale::En)
        } else {
            None
        }
    }
}

impl Default for Locale {
    fn default() -> (r: Self)
        ensures
            r == Locale::Ja,
    {
        Locale::Ja
    }
}

impl std::str::FromStr for Locale {
    type Err = ();

    fn from_str(value: &str) -> (r: Result<Self, Self::Err>)
        ensures
            r == match Locale::from_name(value@) {
                Some(v) => Ok::<Locale, ()>(v),
                None => Err(()),
            },
    {
        match Locale::parse_name(value) {
            Some(locale) => Ok(locale),
            None => Err(()),
        }
    }
}

/// Shortest idle period, in seconds, after which a background tab may be suspended.
pub const MIN_TAB_SUSPEND_GRACE_SECS: u64 = 10;

/// Longest idle period, in seconds, that can be configured before suspension.
pub const MAX_TAB_SUSPEND_GRACE_SECS: u64 = 3600;

/// Idle period, in seconds, used until the user picks another one (five minutes).
pub const DEFAULT_TAB_SUSPEND_GRACE_SECS: u64 = 300;

/// Browser settings kept for the lifetime of the process.
#[derive(Clone, Copy, Debug, PartialEq, Eq, Structural)]
pub struct AppSettings {
    pub search_engine: SearchEngine,
    pub theme: Theme,
    pub locale: Locale,
    pub tab_suspend_enabled: bool,
    pub tab_suspend_grace_secs: u64,
}

impl Default for AppSettings {
    fn default() -> (r: Self)
        ensures
            r.search_engine == SearchEngine::Google,
            r.theme == Theme::Dark,
            r.locale == Locale::Ja,
            r.tab_suspend_enabled,
            r.tab_suspend_grace_secs == DEFAULT_TAB_SUSPEND_GRACE_SECS,
    {
        AppSettings {
            search_engine: SearchEngine::Google,
            theme: Theme::Dark,
            locale: Locale::Ja,
            tab_suspend_enabled: true,
            tab_suspend_grace_secs: DEFAULT_TAB_SUSPEND_GRACE_SECS,
        }
    }
}

/// Brings a requested idle period into the configurable range.
pub fn clamp_tab_suspend_grace(secs: u64) -> (r: u64)
    ensures
        r == if secs < MIN_TAB_SUSPEND_GRACE_SECS {
            MIN_TAB_SUSPEND_GRACE_SECS
        } else if secs > MAX_TAB_SUSPEND_GRACE_SECS {
            MAX_TAB_SUSPEND_GRACE_SECS
        } else {
            secs
        },
{
    if secs < MIN_TAB_SUSPEND_GRACE_SECS {
        MIN_TAB_SUSPEND_GRACE_SECS
    } else if secs > MAX_TAB_SUSPEND_GRACE_SECS {
        MAX_TAB_SUSPEND_GRACE_SECS
    } else {
        secs
    }
}

/// Every engine's name parses back to that engine.
pub proof fn law_search_engine_name_round_trip(engine: SearchEngine)
    ensures
        SearchEngine::from_name(engine.name()) == Some(engine),
{
    reveal_strlit("google");
    reveal_strlit("duckduckgo");
    reveal_strlit("bing");
    assert("google"@.len() != "duckduckgo"@.len());
    assert("google"@.len() != "bing"@.len());
    assert("duckduckgo"@.len() != "bing"@.len());
}

/// Every theme's name parses back to that theme.
pub proof fn law_theme_name_round_trip(theme: Theme)
    ensures
        Theme::from_name(theme.name()) == Some(theme),
{
    reveal_strlit("dark");
    reveal_strlit("light");
    assert("dark"@.len() != "light"@.len());
}

/// Every language's name parses back to that language.
pub proof fn law_locale_name_round_trip(locale: Locale)
    ensures
        Locale::from_name(locale.name()) == Some(locale),
{
    reveal_strlit("ja");
    reveal_strlit("en");
    assert("ja"@[0] != "en"@[0]);
}

} // verus!
