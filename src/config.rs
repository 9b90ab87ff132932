//! The resolved configuration snapshot the core reads, with its defaults.
use crate::text::{concat, contains_str, occurs_in, owned, str_eq, views};
use vstd::prelude::*;

verus! {

#[derive(Clone, Copy, Debug, PartialEq, Eq, Structural)]
pub struct Corners {
    pub window: i32,
    pub search: i32,
    pub list_item: i32,
}

impl Default for Corners {
    fn default() -> (r: Self)
        ensures
            r == (Corners { window: 12, search: 8, list_item: 8 }),
    {
        Corners { window: 12, search: 8, list_item: 8 }
    }
}

#[derive(Clone, Debug)]
pub struct Colors {
    pub window_bg: String,
    pub search_bg: String,
    pub search_bg_focused: String,
    pub item_bg: String,
    pub item_bg_hover: String,
    pub item_bg_selected: String,
    pub search_text: String,
    pub search_caret: String,
    pub item_name: String,
    pub item_name_selected: String,
    pub item_description: String,
    pub item_description_selected: String,
    pub item_path: String,
    pub item_path_selected: String,
    pub border: String,
}

impl Default for Colors {
    fn default() -> (r: Self)
        ensures
            r.window_bg@ == "#0f0f0f"@,
            r.search_bg@ == "#1f1f1f"@,
            r.search_bg_focused@ == "#282828"@,
            r.item_bg@ == "#0f0f0f"@,
            r.item_bg_hover@ == "#181818"@,
            r.item_bg_selected@ == "#1f1f1f"@,
            r.search_text@ == "#e0e0e0"@,
            r.search_caret@ == "#808080"@,
            r.item_name@ == "#ffffff"@,
            r.item_name_selected@ == "#ffffff"@,
            r.item_description@ == "#a0a0a0"@,
            r.item_description_selected@ == "#a0a0a0"@,
            r.item_path@ == "#808080"@,
            r.item_path_selected@ == "#808080"@,
            r.border@ == "#333333"@,
    {
        Colors {
            window_bg: owned("#0f0f0f"),
            search_bg: owned("#1f1f1f"),
            search_bg_focused: owned("#282828"),
            item_bg: owned("#0f0f0f"),
            item_bg_hover: owned("#181818"),
            item_bg_selected: owned("#1f1f1f"),
            search_text: owned("#e0e0e0"),
            search_caret: owned("#808080"),
            item_name: owned("#ffffff"),
            item_name_selected: owned("#ffffff"),
            item_description: owned("#a0a0a0"),
            item_description_selected: owned("#a0a0a0"),
            item_path: owned("#808080"),
            item_path_selected: owned("#808080"),
            border: owned("#333333"),
        }
    }
}

#[derive(Clone, Copy, Debug, PartialEq, Eq, Structural)]
pub struct Spacing {
    pub search_margin: i32,
    pub search_padding: i32,
    pub item_margin: i32,
    pub item_padding: i32,
}

impl Default for Spacing {
    fn default() -> (r: Self)
        ensures
            r == (Spacing { search_margin: 12, search_padding: 12, item_margin: 6, item_padding: 4 }),
    {
        Spacing { search_margin: 12, search_padding: 12, item_margin: 6, item_padding: 4 }
    }
}

#[derive(Clone, Debug)]
pub struct Typography {
    pub search_font_size: i32,
    pub item_name_size: i32,
    pub item_description_size: i32,
    pub item_path_size: i32,
    pub item_path_font_family: String,
}

impl Default for Typography {
    fn default() -> (r: Self)
        ensures
            r.search_font_size == 16,
            r.item_name_size == 14,
            r.item_description_size == 12,
            r.item_path_size == 12,
            r.item_path_font_family@ == "monospace"@,
    {
        Typography {
            search_font_size: 16,
            item_name_size: 14,
            item_description_size: 12,
            item_path_size: 12,
            item_path_font_family: owned("monospace"),
        }
    }
}

#[derive(Clone, Debug)]
pub struct Theme {
    pub colors: Colors,
    pub corners: Corners,
    pub spacing: Spacing,
    pub typography: Typography,
}

impl Default for Theme {
    fn default() -> (r: Self)
        ensures
            default_theme(r),
    {
        Theme {
            colors: Colors::default(),
            corners: Corners::default(),
            spacing: Spacing::default(),
            typography: Typography::default(),
        }
    }
}

#[allow(non_camel_case_types)]
#[derive(Clone, Copy, Debug, PartialEq, Eq, Structural)]
pub enum WindowAnchor {
    center,
    top,
    bottom,
    left,
    right,
    top_left,
    top_right,
    bottom_left,
    bottom_right,
}

#[derive(Clone, Debug)]
pub struct NavigateKeys {
    pub up: String,
    pub down: String,
    pub delete_word: String,
}

impl Default for NavigateKeys {
    fn default() -> (r: Self)
        ensures
            r.up@ == "k"@,
            r.down@ == "j"@,
            r.delete_word@ == "h"@,
    {
        NavigateKeys { up: owned("k"), down: owned("j"), delete_word: owned("h") }
    }
}

#[derive(Clone, Debug)]
pub struct Window {
    pub width: i32,
    pub height: i32,
    pub anchor: WindowAnchor,
    pub margin_top: i32,
    pub margin_bottom: i32,
    pub margin_left: i32,
    pub margin_right: i32,
    pub show_descriptions: bool,
    pub show_paths: bool,
    pub show_icons: bool,
    pub show_search: bool,
    pub show_actions: bool,
    pub custom_navigate_keys: NavigateKeys,
    pub show_border: bool,
    pub border_width: i32,
    pub use_gtk_colors: bool,
    pub use_custom_css: bool,
    pub max_entries: usize,
}

impl Default for Window {
    fn default() -> (r: Self)
        ensures
            default_window(r),
    {
        Window {
            width: 600,
            height: 600,
            show_descriptions: false,
            show_paths: false,
            show_icons: true,
            show_search: true,
            show_actions: false,
            custom_navigate_keys: NavigateKeys::default(),
            anchor: WindowAnchor::center,
            margin_top: 0,
            margin_bottom: 0,
            margin_left: 0,
            margin_right: 0,
            show_border: true,
            border_width: 2,
            use_gtk_colors: false,
            use_custom_css: false,
            max_entries: 50,
        }
    }
}

#[derive(Clone, Copy, Debug, PartialEq, Eq, Structural)]
pub struct Debug {
    pub disable_auto_focus: bool,
    pub enable_logging: bool,
}

impl Default for Debug {
    fn default() -> (r: Self)
        ensures
            r == (Debug { disable_auto_focus: false, enable_logging: false }),
    {
        Debug { disable_auto_focus: false, enable_logging: false }
    }
}

#[derive(Clone, Copy, Debug, PartialEq, Eq, Structural)]
pub struct Dmenu {
    pub allow_invalid: bool,
    pub case_sensitive: bool,
}

impl Default for Dmenu {
    fn default() -> (r: Self)
        ensures
            r == (Dmenu { allow_invalid: false, case_sensitive: false }),
    {
        Dmenu { allow_invalid: false, case_sensitive: false }
    }
}

/// Optional search modes.
#[derive(Clone, Copy, Debug, PartialEq, Eq, Structural)]
pub struct Modes {
    /// Evaluate arithmetic when nothing else matches a query that starts with a digit.
    pub calculator: bool,
    /// List dotfiles in path mode.
    pub show_hidden: bool,
}

impl Default for Modes {
    fn default() -> (r: Self)
        ensures
            r == (Modes { calculator: true, show_hidden: false }),
    {
        Modes { calculator: true, show_hidden: false }
    }
}

#[derive(Clone, Copy, Debug, PartialEq, Eq, Structural)]
pub enum PresetEngine {
    DuckDuckGo,
    Google,
    Bing,
    Brave,
    Ecosia,
    Startpage,
}

/// A web search engine: one of the presets or a custom URL prefix.
#[derive(Clone, Debug, PartialEq, Eq)]
pub enum SearchEngine {
    Preset(PresetEngine),
    Custom(String),
}

/// The URL prefix a search term is appended to.
pub open spec fn engine_url(e: SearchEngine) -> Seq<char> {
    match e {
        SearchEngine::Preset(p) => match p {
            PresetEngine::DuckDuckGo => "https://duckduckgo.com/?q="@,
            PresetEngine::Google => "https://www.google.com/search?q="@,
            PresetEngine::Bing => "https://www.bing.com/search?q="@,
            PresetEngine::Brave => "https://search.brave.com/search?q="@,
            PresetEngine::Ecosia => "https://www.ecosia.org/search?q="@,
            PresetEngine::Startpage => "https://www.startpage.com/do/search?q="@,
        },
        SearchEngine::Custom(url) => url@,
    }
}

impl SearchEngine {
    /// The URL prefix of this engine.
    pub fn get_url(&self) -> (r: String)
        ensures
            r@ == engine_url(*self),
    {
        match self {
            SearchEngine::Preset(engine) => match engine {
                PresetEngine::DuckDuckGo => owned("https://duckduckgo.com/?q="),
                PresetEngine::Google => owned("https://www.google.com/search?q="),
                PresetEngine::Bing => owned("https://www.bing.com/search?q="),
                PresetEngine::Brave => owned("https://search.brave.com/search?q="),
                PresetEngine::Ecosia => owned("https://www.ecosia.org/search?q="),
                PresetEngine::Startpage => owned("https://www.startpage.com/do/search?q="),
            },
            SearchEngine::Custom(url) => url.clone(),
        }
    }
}

impl Default for SearchEngine {
    fn default() -> (r: Self)
        ensures
            r == SearchEngine::Preset(PresetEngine::DuckDuckGo),
    {
        SearchEngine::Preset(PresetEngine::DuckDuckGo)
    }
}

/// A custom search prefix: `prefix:term` searches `term` at `url`.
#[derive(Clone, Debug, PartialEq, Eq)]
pub struct SearchPrefix {
    pub prefix: String,
    pub url: String,
}

#[derive(Clone, Debug)]
pub struct WebSearch {
    pub enabled: bool,
    pub engine: SearchEngine,
    pub prefixes: Vec<SearchPrefix>,
}

impl Default for WebSearch {
    fn default() -> (r: Self)
        ensures
            !r.enabled,
            r.engine == SearchEngine::Preset(PresetEngine::DuckDuckGo),
            r.prefixes@.len() == 0,
    {
        WebSearch { enabled: false, engine: SearchEngine::default(), prefixes: Vec::new() }
    }
}

#[derive(Clone, Debug)]
pub struct Config {
    pub window: Window,
    pub theme: Theme,
    pub debug: Debug,
    pub dmenu: Dmenu,
    pub web_search: WebSearch,
    pub modes: Modes,
}

impl Default for Config {
    fn default() -> (r: Self)
        ensures
            default_config(r),
    {
        Config {
            window: Window::default(),
            theme: Theme::default(),
            debug: Debug::default(),
            dmenu: Dmenu::default(),
            web_search: WebSearch::default(),
            modes: Modes::default(),
        }
    }
}

/// A problem found in the configuration file, shown to the user.
#[derive(Clone, Debug)]
pub struct ConfigError {
    pub line: usize,
    pub message: String,
    pub suggestion: String,
}

impl ConfigError {
    pub fn new(line: usize, message: &str, suggestion: &str) -> (r: Self)
        ensures
            r.line == line,
            r.message@ == message@,
            r.suggestion@ == suggestion@,
    {
        ConfigError { line, message: owned(message), suggestion: owned(suggestion) }
    }
}

/// Every color at its default.
pub open spec fn default_colors(c: Colors) -> bool {
    &&& c.window_bg@ == "#0f0f0f"@
    &&& c.search_bg@ == "#1f1f1f"@
    &&& c.search_bg_focused@ == "#282828"@
    &&& c.item_bg@ == "#0f0f0f"@
    &&& c.item_bg_hover@ == "#181818"@
    &&& c.item_bg_selected@ == "#1f1f1f"@
    &&& c.search_text@ == "#e0e0e0"@
    &&& c.search_caret@ == "#808080"@
    &&& c.item_name@ == "#ffffff"@
    &&& c.item_name_selected@ == "#ffffff"@
    &&& c.item_description@ == "#a0a0a0"@
    &&& c.item_description_selected@ == "#a0a0a0"@
    &&& c.item_path@ == "#808080"@
    &&& c.item_path_selected@ == "#808080"@
    &&& c.border@ == "#333333"@
}

/// The whole theme at its defaults.
pub open spec fn default_theme(t: Theme) -> bool {
    &&& default_colors(t.colors)
    &&& t.corners == (Corners { window: 12, search: 8, list_item: 8 })
    &&& t.spacing == (Spacing { search_margin: 12, search_padding: 12, item_margin: 6, item_padding: 4 })
    &&& t.typography.search_font_size == 16
    &&& t.typography.item_name_size == 14
    &&& t.typography.item_description_size == 12
    &&& t.typography.item_path_size == 12
    &&& t.typography.item_path_font_family@ == "monospace"@
}

/// The whole window section at its defaults.
pub open spec fn default_window(w: Window) -> bool {
    &&& w.width == 600 && w.height == 600
    &&& w.anchor == WindowAnchor::center
    &&& w.margin_top == 0 && w.margin_bottom == 0 && w.margin_left == 0 && w.margin_right == 0
    &&& !w.show_descriptions && !w.show_paths && w.show_icons && w.show_search
    &&& !w.show_actions
    &&& w.custom_navigate_keys.up@ == "k"@
    &&& w.custom_navigate_keys.down@ == "j"@
    &&& w.custom_navigate_keys.delete_word@ == "h"@
    &&& w.show_border && w.border_width == 2
    &&& !w.use_gtk_colors && !w.use_custom_css
    &&& w.max_entries == 50
}

/// Every section but `debug` at its defaults.
pub open spec fn defaults_besides_debug(c: Config) -> bool {
    &&& default_window(c.window)
    &&& default_theme(c.theme)
    &&& c.dmenu == (Dmenu { allow_invalid: false, case_sensitive: false })
    &&& !c.web_search.enabled
    &&& c.web_search.engine == SearchEngine::Preset(PresetEngine::DuckDuckGo)
    &&& c.web_search.prefixes@.len() == 0
    &&& c.modes == (Modes { calculator: true, show_hidden: false })
}

/// The default configuration.
pub open spec fn default_config(c: Config) -> bool {
    defaults_besides_debug(c) && c.debug == (Debug { disable_auto_focus: false, enable_logging: false })
}

/// The configuration used when the file has a problem: the defaults, automatic focus off.
pub open spec fn fallback_config(c: Config) -> bool {
    defaults_besides_debug(c) && c.debug == (Debug { disable_auto_focus: true, enable_logging: false })
}

/// What reading and parsing the configuration file gave.
pub enum ConfigSource {
    /// There is no configuration file.
    Missing,
    /// The file exists but could not be read.
    Unreadable,
    /// The file is not valid TOML.
    Malformed,
    /// The file is TOML with these top-level tables; deserializing it gave a configuration or
    /// an error at a byte offset with a message.
    Parsed { tables: Vec<String>, outcome: Result<Config, (usize, String)> },
}

/// A configuration and the problem found in its file, if any.
pub struct LoadedConfig {
    pub config: Config,
    pub error: Option<ConfigError>,
}

/// The tables a configuration file must have, in the order they are checked.
pub open spec fn required_tables() -> Seq<Seq<char>> {
    seq!["window"@, "theme"@, "debug"@, "dmenu"@, "web_search"@]
}

/// `i` is the first required table missing from `tables`.
pub open spec fn is_first_missing(tables: Seq<Seq<char>>, i: int) -> bool {
    0 <= i < 5 && !tables.contains(required_tables()[i]) && forall|j: int|
        0 <= j < i ==> tables.contains(#[trigger] required_tables()[j])
}

/// The hint shown for a deserialization error.
pub open spec fn suggestion_for(message: Seq<char>) -> Seq<char> {
    if occurs_in("invalid type"@, message) {
        "Check the type of this value matches what's expected in the config"@
    } else if occurs_in("missing field"@, message) {
        "Add the missing field with an appropriate value"@
    } else {
        "Verify the syntax follows TOML format"@
    }
}

fn suggestion(message: &str) -> (r: String)
    ensures
        r@ == suggestion_for(message@),
{
    if contains_str(message, "invalid type") {
        owned("Check the type of this value matches what's expected in the config")
    } else if contains_str(message, "missing field") {
        owned("Add the missing field with an appropriate value")
    } else {
        owned("Verify the syntax follows TOML format")
    }
}

fn has_table(tables: &Vec<String>, name: &str) -> (r: bool)
    ensures
        r == views(tables@).contains(name@),
{
    let mut i: usize = 0;
    while i < tables.len()
        invariant
            i <= tables.len(),
            forall|j: int| 0 <= j < i ==> views(tables@)[j] != name@,
        decreases tables.len() - i,
    {
        if str_eq(tables[i].as_str(), name) {
            assert(views(tables@)[i as int] == name@);
            return true;
        }
        i += 1;
    }
    false
}

/// The defaults, with automatic focus turned off so that the problem stays visible.
fn fallback() -> (r: Config)
    ensures
        fallback_config(r),
{
    let mut c = Config::default();
    c.debug.disable_auto_focus = true;
    c
}

/// The configuration of a TOML file with these top-level tables (see `Config::load`).
fn load_tables(tables: Vec<String>, outcome: Result<Config, (usize, String)>) -> (r: LoadedConfig)
    ensures
        if exists|i: int| is_first_missing(views(tables@), i) {
            let i = choose|i: int| is_first_missing(views(tables@), i);
            fallback_config(r.config) && r.error is Some && r.error->0.line == 1
                && r.error->0.message@ == "Missing required category '["@ + required_tables()[i]
                + "]'"@ && r.error->0.suggestion@
                == "Add the missing category with its required fields"@
        } else {
            match outcome {
                Ok(c) => r.config == c && r.error is None,
                Err((line, message)) => fallback_config(r.config) && r.error is Some
                    && r.error->0.line == line && r.error->0.message@ == message@
                    && r.error->0.suggestion@ == suggestion_for(message@),
            }
        },
{
    let required = ["window", "theme", "debug", "dmenu", "web_search"];
    let mut i: usize = 0;
    while i < 5
        invariant
            i <= 5,
            required@ == seq!["window", "theme", "debug", "dmenu", "web_search"],
            forall|j: int| 0 <= j < i ==> views(tables@).contains(#[trigger] required_tables()[j]),
        decreases 5 - i,
    {
        assert(required_tables()[i as int] == required@[i as int]@);
        if !has_table(&tables, required[i]) {
            let ghost k = choose|k: int| is_first_missing(views(tables@), k);
            assert(is_first_missing(views(tables@), i as int));
            assert(k == i) by {
                if k < i {
                    assert(views(tables@).contains(required_tables()[k]));
                } else if k > i {
                    assert(views(tables@).contains(required_tables()[i as int]));
                }
            }
            let message = concat(
                concat("Missing required category '[", required[i]).as_str(),
                "]'",
            );
            assert(message@ == "Missing required category '["@ + required_tables()[k] + "]'"@);
            let r = LoadedConfig {
                config: fallback(),
                error: Some(
                    ConfigError::new(
                        1,
                        message.as_str(),
                        "Add the missing category with its required fields",
                    ),
                ),
            };
            assert(exists|j: int| is_first_missing(views(tables@), j));
            return r;
        }
        i += 1;
    }
    assert(!exists|k: int| is_first_missing(views(tables@), k)) by {
        if exists|k: int| is_first_missing(views(tables@), k) {
            let k = choose|k: int| is_first_missing(views(tables@), k);
            assert(views(tables@).contains(required_tables()[k]));
        }
    }
    match outcome {
        Ok(c) => LoadedConfig { config: c, error: None },
        Err((line, message)) => {
            let hint = suggestion(message.as_str());
            LoadedConfig {
                config: fallback(),
                error: Some(ConfigError::new(line, message.as_str(), hint.as_str())),
            }
        },
    }
}

impl Config {
    /// Decides the configuration in use and the problem to report: a missing or unreadable file
    /// gives the defaults silently; a malformed file, a missing required table or a value that
    /// does not deserialize gives the defaults (focus off) and an error; otherwise the file's
    /// configuration.
    pub fn load(source: ConfigSource) -> (r: LoadedConfig)
        ensures
            match source {
                ConfigSource::Missing | ConfigSource::Unreadable => r.error is None
                    && default_config(r.config),
                ConfigSource::Malformed => fallback_config(r.config) && r.error is Some
                    && r.error->0.line == 1 && r.error->0.message@ == "Failed to parse config file"@
                    && r.error->0.suggestion@ == "Verify the TOML syntax is correct"@,
                ConfigSource::Parsed { tables, outcome } => if exists|i: int|
                    is_first_missing(views(tables@), i) {
                    let i = choose|i: int| is_first_missing(views(tables@), i);
                    fallback_config(r.config) && r.error is Some && r.error->0.line == 1
                        && r.error->0.message@ == "Missing required category '["@
                        + required_tables()[i] + "]'"@ && r.error->0.suggestion@
                        == "Add the missing category with its required fields"@
                } else {
                    match outcome {
                        Ok(c) => r.config == c && r.error is None,
                        Err((line, message)) => fallback_config(r.config) && r.error is Some
                            && r.error->0.line == line && r.error->0.message@ == message@
                            && r.error->0.suggestion@ == suggestion_for(message@),
                    }
                },
            },
    {
        match source {
            ConfigSource::Missing | ConfigSource::Unreadable => LoadedConfig {
                config: Config::default(),
                error: None,
            },
            ConfigSource::Malformed => LoadedConfig {
                config: fallback(),
                error: Some(
                    ConfigError::new(
                        1,
                        "Failed to parse config file",
                        "Verify the TOML syntax is correct",
                    ),
                ),
            },
            ConfigSource::Parsed { tables, outcome } => load_tables(tables, outcome),
        }
    }

    /// The problem found when the configuration was loaded, if any.
    pub fn get_current_error(loaded: &LoadedConfig) -> (r: Option<ConfigError>)
        ensures
            r == loaded.error,
    {
        match &loaded.error {
            Some(e) => Some(
                ConfigError {
                    line: e.line,
                    message: e.message.clone(),
                    suggestion: e.suggestion.clone(),
                },
            ),
            None => None,
        }
    }
}

} // verus!
