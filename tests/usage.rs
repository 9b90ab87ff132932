use hyprlauncher::entry::{AppEntry, EntryType};
use hyprlauncher::keyed::KeyedList;
use hyprlauncher::usage::{increment_launch_count, load_applications, update_heatmap, Catalogue, Heatmap, HeatmapEntry};

fn app(name: &str) -> AppEntry {
    AppEntry {
        name: name.to_string(),
        description: String::new(),
        path: format!("/usr/share/applications/{}.desktop", name),
        command: name.to_string(),
        icon_name: "x".to_string(),
        launch_count: 0,
        last_used: None,
        entry_type: EntryType::Application,
        score_boost: 0,
        keywords: Vec::new(),
        categories: Vec::new(),
        terminal: false,
        actions: Vec::new(),
    }
}

#[test]
fn launch_twice_then_reload() {
    let mut heat: Heatmap = Heatmap::new();
    let mut cat = load_applications(vec![app("editor"), app("shell")], &heat);
    let first = cat.entries()[0].clone();
    assert_eq!(increment_launch_count(&first, 100, &mut cat, &mut heat), 1);
    assert_eq!(heat.get("editor"), Some(HeatmapEntry { count: 1, last_used: 100 }));
    let again = cat.entries()[0].clone();
    assert_eq!(again.launch_count, 1);
    assert_eq!(increment_launch_count(&again, 200, &mut cat, &mut heat), 2);
    let rec = heat.get("editor").unwrap();
    assert_eq!(rec.count, 2);
    assert!(rec.last_used > 100);
    let reloaded = load_applications(vec![app("shell"), app("editor")], &heat);
    let e = reloaded.entries().iter().find(|e| e.name == "editor").unwrap();
    assert_eq!(e.launch_count, 2);
    assert_eq!(e.last_used, Some(200));
    let s = reloaded.entries().iter().find(|e| e.name == "shell").unwrap();
    assert_eq!(s.launch_count, 0);
    assert_eq!(s.last_used, None);
}

#[test]
fn duplicate_names_last_write_wins() {
    let heat: Heatmap = Heatmap::new();
    let mut second = app("editor");
    second.command = "editor --second".to_string();
    let cat = load_applications(vec![app("editor"), app("other"), second], &heat);
    assert_eq!(cat.len(), 2);
    assert_eq!(cat.entries()[0].command, "editor --second");
    let empty: Catalogue = Catalogue::new();
    assert_eq!(empty.len(), 0);
}

#[test]
fn heatmap_update_replaces() {
    let mut heat: Heatmap = KeyedList::new();
    update_heatmap(&mut heat, "a", 1, 10);
    update_heatmap(&mut heat, "b", 4, 11);
    update_heatmap(&mut heat, "a", 2, 12);
    assert_eq!(heat.len(), 2);
    assert_eq!(heat.get("a"), Some(HeatmapEntry { count: 2, last_used: 12 }));
    assert_eq!(heat.key_at(1), "b");
    assert_eq!(heat.value_at(1), HeatmapEntry { count: 4, last_used: 11 });
    assert_eq!(heat.get("c"), None);
}
