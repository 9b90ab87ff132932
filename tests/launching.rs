use hyprlauncher::entry::{AppEntry, EntryType};
use hyprlauncher::launch::{launch_action, replace_all, trim, LaunchAction};

fn entry(name: &str, command: &str, kind: EntryType, icon: &str, path: &str) -> AppEntry {
    AppEntry {
        name: name.to_string(),
        description: String::new(),
        path: path.to_string(),
        command: command.to_string(),
        icon_name: icon.to_string(),
        launch_count: 0,
        last_used: None,
        entry_type: kind,
        score_boost: 0,
        keywords: Vec::new(),
        categories: Vec::new(),
        terminal: false,
        actions: Vec::new(),
    }
}

#[test]
fn application_command_is_cleaned() {
    let a = entry("Viewer", "  viewer %U --class %c %i ", EntryType::Application, "x", "p");
    assert_eq!(launch_action(&a), LaunchAction::Spawn("viewer  --class Viewer".to_string()));
}

#[test]
fn folder_is_navigated() {
    let f = entry("Documents", "", EntryType::File, "folder", "/home/u/Documents");
    assert_eq!(launch_action(&f), LaunchAction::Navigate("/home/u/Documents/".to_string()));
    let g = entry("..", "", EntryType::File, "folder", "/");
    assert_eq!(launch_action(&g), LaunchAction::Navigate("/".to_string()));
}

#[test]
fn file_runs_its_command() {
    let f = entry("a.txt", "xdg-open \"/a.txt\"", EntryType::File, "text-x-generic", "/a.txt");
    assert_eq!(launch_action(&f), LaunchAction::Spawn("xdg-open \"/a.txt\"".to_string()));
}

#[test]
fn replace_and_trim() {
    assert_eq!(replace_all("aaa", "aa", "b"), "ba");
    assert_eq!(replace_all("abc", "", "x"), "abc");
    assert_eq!(replace_all("%f%f", "%f", "-"), "--");
    assert_eq!(trim(" \t x y \n"), "x y");
    assert_eq!(trim("   "), "");
}
