use hyprlauncher::config::{Config, ConfigError, ConfigSource};
use hyprlauncher::desktop::{locale_name, parse_desktop_entry};
use hyprlauncher::entry::strip_field_codes;
use hyprlauncher::paths::{get_desktop_paths, heatmap_path};
use hyprlauncher::text::{eq_ignore_ascii_case, split_pieces};

const FIREFOX: &str = "[Desktop Entry]
Name=Firefox
Name[de]=Feuerfuchs
Comment=Browse the web
Exec=firefox %u --private
Icon=firefox
Keywords=web;internet;;
Categories=Network;WebBrowser;
Terminal=false
Actions=new-window;broken;

[Desktop Action new-window]
Name=New Window
Exec=firefox --new-window %u

[Desktop Action broken]
Name=Broken
";

#[test]
fn parses_descriptor() {
    let e = parse_desktop_entry(FIREFOX.as_bytes().to_vec(), "/usr/share/applications/firefox.desktop", "GNOME", "").unwrap();
    assert_eq!(e.name, "Firefox");
    assert_eq!(e.description, "Browse the web");
    assert_eq!(e.command, "firefox --private");
    assert_eq!(e.icon_name, "firefox");
    assert_eq!(e.keywords, vec!["web".to_string(), "internet".to_string()]);
    assert_eq!(e.categories, vec!["Network".to_string(), "WebBrowser".to_string()]);
    assert!(!e.terminal);
    assert_eq!(e.actions.len(), 1);
    assert_eq!(e.actions[0].name, "New Window");
    assert_eq!(e.actions[0].command, "firefox --new-window");
    assert_eq!(e.path, "/usr/share/applications/firefox.desktop");
    assert_eq!(e.launch_count, 0);
}

#[test]
fn localized_name() {
    let e = parse_desktop_entry(FIREFOX.as_bytes().to_vec(), "p", "", "de").unwrap();
    assert_eq!(e.name, "Feuerfuchs");
    assert_eq!(locale_name("de_DE.UTF-8"), "de_DE");
    assert_eq!(locale_name("C"), "C");
}

#[test]
fn hidden_and_filtered_descriptors() {
    let hidden = "[Desktop Entry]\nName=X\nNoDisplay=true\n";
    assert!(parse_desktop_entry(hidden.as_bytes().to_vec(), "p", "", "").is_none());
    let only = "[Desktop Entry]\nName=X\nOnlyShowIn=KDE;\n";
    assert!(parse_desktop_entry(only.as_bytes().to_vec(), "p", "gnome", "").is_none());
    assert!(parse_desktop_entry(only.as_bytes().to_vec(), "p", "ubuntu:kde", "").is_some());
    let not = "[Desktop Entry]\nName=X\nNotShowIn=GNOME;\n";
    assert!(parse_desktop_entry(not.as_bytes().to_vec(), "p", "gnome", "").is_none());
    assert!(parse_desktop_entry(not.as_bytes().to_vec(), "p", "sway", "").is_some());
    let nameless = "[Desktop Entry]\nExec=x\n";
    assert!(parse_desktop_entry(nameless.as_bytes().to_vec(), "p", "", "").is_none());
    let minimal = parse_desktop_entry("[Desktop Entry]\nName=Y\n".as_bytes().to_vec(), "p", "", "").unwrap();
    assert_eq!(minimal.icon_name, "application-x-executable");
    assert_eq!(minimal.command, "");
}

#[test]
fn field_codes_are_stripped() {
    assert_eq!(strip_field_codes("  app   %F --flag %c x%y "), "app --flag x%y");
    assert_eq!(strip_field_codes(""), "");
}

#[test]
fn text_helpers() {
    assert_eq!(split_pieces(";a;;b;", Some(';')), vec!["a".to_string(), "b".to_string()]);
    assert_eq!(split_pieces(" a \t b ", None), vec!["a".to_string(), "b".to_string()]);
    assert!(eq_ignore_ascii_case("FiReFoX", "firefox"));
    assert!(!eq_ignore_ascii_case("firefo", "firefox"));
}

#[test]
fn scan_locations() {
    let p = get_desktop_paths(&Some("/a:/b".to_string()), &Some("/home/u".to_string()));
    assert_eq!(p[0], "/a/applications");
    assert_eq!(p[1], "/b/applications");
    assert_eq!(p[2], "/usr/share/applications");
    assert_eq!(p[5], "/home/u/.local/share/applications");
    assert_eq!(p.len(), 7);
    let q = get_desktop_paths(&None, &None);
    assert_eq!(q.len(), 5);
    assert_eq!(q[3], "~/.local/share/applications");
    assert_eq!(heatmap_path(&Some("/h".to_string())), "/h/.local/share/hyprlauncher/heatmap.toml");
}

#[test]
fn config_load_outcomes() {
    let r = Config::load(ConfigSource::Missing);
    assert!(Config::get_current_error(&r).is_none());
    assert_eq!(r.config.window.max_entries, 50);
    let r = Config::load(ConfigSource::Malformed);
    let e = Config::get_current_error(&r).unwrap();
    assert_eq!(e.line, 1);
    assert_eq!(e.message, "Failed to parse config file");
    assert!(r.config.debug.disable_auto_focus);
    let tables = vec!["window".to_string(), "debug".to_string()];
    let r = Config::load(ConfigSource::Parsed { tables, outcome: Ok(Config::default()) });
    assert_eq!(r.error.unwrap().message, "Missing required category '[theme]'");
    let all: Vec<String> = ["window", "theme", "debug", "dmenu", "web_search"].iter().map(|s| s.to_string()).collect();
    let r = Config::load(ConfigSource::Parsed {
        tables: all.clone(),
        outcome: Err((42, "invalid type: string, expected usize".to_string())),
    });
    let e = r.error.unwrap();
    assert_eq!(e.line, 42);
    assert_eq!(e.suggestion, "Check the type of this value matches what's expected in the config");
    let r = Config::load(ConfigSource::Parsed { tables: all.clone(), outcome: Err((3, "missing field `x`".to_string())) });
    assert_eq!(r.error.unwrap().suggestion, "Add the missing field with an appropriate value");
    let mut c = Config::default();
    c.window.max_entries = 9;
    let r = Config::load(ConfigSource::Parsed { tables: all, outcome: Ok(c) });
    assert!(r.error.is_none());
    assert_eq!(r.config.window.max_entries, 9);
    let e = ConfigError::new(2, "m", "s");
    assert_eq!((e.line, e.message.as_str(), e.suggestion.as_str()), (2, "m", "s"));
}

#[test]
fn unreadable_config_is_silent() {
    let r = Config::load(ConfigSource::Unreadable);
    assert!(r.error.is_none());
    assert!(!r.config.debug.disable_auto_focus);
    let r = Config::load(ConfigSource::Parsed {
        tables: ["window", "theme", "debug", "dmenu", "web_search"].iter().map(|s| s.to_string()).collect(),
        outcome: Err((0, "expected `=`".to_string())),
    });
    assert_eq!(r.error.unwrap().suggestion, "Verify the syntax follows TOML format");
}

#[test]
fn unicode_whitespace_separates_tokens() {
    assert_eq!(strip_field_codes("app\u{00A0}%u\u{3000}--x"), "app --x");
    assert_eq!(split_pieces("a\u{2003}b", None), vec!["a".to_string(), "b".to_string()]);
}

#[test]
fn defaults_when_file_missing() {
    let r = Config::load(ConfigSource::Missing);
    assert_eq!(r.config.theme.colors.border, "#333333");
    assert_eq!(r.config.window.custom_navigate_keys.delete_word, "h");
    let r = Config::load(ConfigSource::Malformed);
    assert_eq!(r.config.theme.typography.item_path_font_family, "monospace");
    assert!(r.config.debug.disable_auto_focus && !r.config.debug.enable_logging);
}
