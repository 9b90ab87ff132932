use hyprlauncher::config::{Config, PresetEngine, SearchEngine, SearchPrefix};
use hyprlauncher::entry::{AppEntry, DesktopAction, EntryType};
use hyprlauncher::path::{plan_path, DirItem, ItemKind, Listing, PARENT_SCORE};
use hyprlauncher::rank::{calculate_bonus_score, load_history, should_exclude_web_search, History};
use hyprlauncher::search::{classify_query, search_applications, search_dmenu, Probes, QueryMode};
use hyprlauncher::synthetic::{calc_display, check_binary, create_web_search_entry, handle_calculation};
use hyprlauncher::usage::{load_applications, Catalogue, Heatmap, HeatmapEntry};

fn app(name: &str, icon: &str) -> AppEntry {
    AppEntry {
        name: name.to_string(),
        description: String::new(),
        path: format!("/usr/share/applications/{}.desktop", name.to_lowercase()),
        command: name.to_lowercase(),
        icon_name: icon.to_string(),
        launch_count: 0,
        last_used: None,
        entry_type: EntryType::Application,
        score_boost: 0,
        keywords: Vec::new(),
        categories: Vec::new(),
        terminal: false,
        actions: Vec::new(),
    }
}

fn probes(now: u64) -> Probes {
    Probes { now, windows: Vec::new(), binary_found: false, listing: None }
}

fn catalogue_of(apps: Vec<AppEntry>) -> Catalogue {
    let heat: Heatmap = Heatmap::new();
    load_applications(apps, &heat)
}

#[test]
fn bonus_with_history() {
    let mut heat: Heatmap = Heatmap::new();
    heat.insert("Firefox", HeatmapEntry { count: 3, last_used: 900 });
    let history = load_history(&heat);
    let a = app("Firefox", "firefox");
    // 10000 - 100 / 10 + 3 * 20 + icon bonus
    assert_eq!(calculate_bonus_score(&a, &history, 1000, &Vec::new()), 10000 - 10 + 60 + 1000);
}

#[test]
fn bonus_without_history_is_capped() {
    let history: History = History::new();
    let mut a = app("Tool", "application-x-executable");
    a.launch_count = 20;
    assert_eq!(calculate_bonus_score(&a, &history, 1000, &Vec::new()), 200);
    a.launch_count = 2;
    assert_eq!(calculate_bonus_score(&a, &history, 1000, &Vec::new()), 40);
}

#[test]
fn bonus_running_window_penalty() {
    let history: History = History::new();
    let a = app("Firefox", "firefox");
    let windows = vec!["Firefox".to_string()];
    assert_eq!(calculate_bonus_score(&a, &history, 0, &windows), 1000 - 500);
    let other = vec!["Thunderbird".to_string()];
    assert_eq!(calculate_bonus_score(&a, &history, 0, &other), 1000);
}

#[test]
fn results_never_exceed_max() {
    let apps: Vec<AppEntry> = (0..10).map(|i| app(&format!("App{}", i), "x")).collect();
    let cat = catalogue_of(apps);
    let history = History::new();
    let mut config = Config::default();
    config.window.max_entries = 3;
    let r = search_applications("app", &config, &cat, &history, &probes(100));
    assert!(r.len() <= 3);
    let r = search_applications("", &config, &cat, &history, &probes(100));
    assert_eq!(r.len(), 3);
}

#[test]
fn browse_known_first_then_alphabetical() {
    let apps = vec![app("zeta", "x"), app("Alpha", "x"), app("beta", "x"), app("Gamma", "x")];
    let cat = catalogue_of(apps);
    let mut heat: Heatmap = Heatmap::new();
    heat.insert("zeta", HeatmapEntry { count: 1, last_used: 50 });
    heat.insert("Gamma", HeatmapEntry { count: 5, last_used: 90 });
    let history = load_history(&heat);
    let config = Config::default();
    let r = search_applications("", &config, &cat, &history, &probes(100));
    let names: Vec<&str> = r.iter().map(|x| x.app.name.as_str()).collect();
    assert_eq!(names, vec!["Gamma", "zeta", "Alpha", "beta"]);
    assert!(r[0].score >= r[1].score);
}

#[test]
fn browse_skips_non_descriptor_entries() {
    let mut a = app("Script", "x");
    a.path = "/home/u/script.sh".to_string();
    let cat = catalogue_of(vec![a, app("Editor", "x")]);
    let r = search_applications("", &Config::default(), &cat, &History::new(), &probes(1));
    assert_eq!(r.len(), 1);
    assert_eq!(r[0].app.name, "Editor");
}

#[test]
fn exact_name_gets_top_tier() {
    let cat = catalogue_of(vec![app("Firefox Developer Edition", "x"), app("Firefox", "x")]);
    let history = History::new();
    let r = search_applications("firefox", &Config::default(), &cat, &history, &probes(100));
    assert_eq!(r[0].app.name, "Firefox");
    assert_eq!(r[0].score, 3000 + 1000);
    assert!(r.iter().any(|x| x.app.name == "Firefox Developer Edition"));
    assert!(r[1].score < r[0].score);
}

#[test]
fn keyword_and_category_tiers() {
    let mut a = app("Navigator", "application-x-executable");
    a.keywords = vec!["browser".to_string()];
    let mut b = app("Files", "application-x-executable");
    b.categories = vec!["Browser".to_string()];
    let cat = catalogue_of(vec![a, b]);
    let r = search_applications("browser", &Config::default(), &cat, &History::new(), &probes(1));
    assert_eq!(r[0].app.name, "Navigator");
    assert_eq!(r[0].score, 2500);
    assert_eq!(r[1].app.name, "Files");
    assert_eq!(r[1].score, 2000);
}

#[test]
fn actions_are_listed_below_parent() {
    let mut a = app("Firefox", "application-x-executable");
    a.actions = vec![DesktopAction {
        name: "New Window".to_string(),
        command: "firefox --new-window".to_string(),
        icon_name: Some("window-new".to_string()),
    }];
    let cat = catalogue_of(vec![a]);
    let mut config = Config::default();
    config.window.show_actions = true;
    let r = search_applications("new", &config, &cat, &History::new(), &probes(1));
    assert_eq!(r.len(), 1);
    assert_eq!(r[0].app.name, "Firefox - New Window");
    assert_eq!(r[0].app.command, "firefox --new-window");
    assert_eq!(r[0].app.icon_name, "window-new");
    assert_eq!(r[0].score, -100);
}

#[test]
fn home_listing_puts_parent_first() {
    let plan = plan_path("/home/user", true);
    assert_eq!(plan.parent.as_deref(), Some("/home"));
    let listing = Listing {
        plan,
        items: vec![
            DirItem { name: "notes.txt".to_string(), kind: ItemKind::Other("text-x-generic".to_string()) },
            DirItem { name: ".bashrc".to_string(), kind: ItemKind::Other("text-x-generic".to_string()) },
            DirItem { name: "Documents".to_string(), kind: ItemKind::Folder },
        ],
    };
    let p = Probes { now: 1, windows: Vec::new(), binary_found: false, listing: Some(listing) };
    assert_eq!(classify_query("~"), QueryMode::Path);
    let r = search_applications("~", &Config::default(), &Catalogue::new(), &History::new(), &p);
    let names: Vec<&str> = r.iter().map(|x| x.app.name.as_str()).collect();
    assert_eq!(names, vec!["..", "Documents", "notes.txt"]);
    assert_eq!(r[0].score, PARENT_SCORE);
    assert_eq!(r[0].app.path, "/home");
    assert_eq!(r[1].app.path, "/home/user/Documents");
    assert_eq!(r[2].app.command, "xdg-open \"/home/user/notes.txt\"");
    assert_eq!(r[1].app.entry_type, EntryType::File);
}

#[test]
fn path_plan_of_partial_name() {
    let plan = plan_path("/home/user/Doc", false);
    assert_eq!(plan.dir, "/home/user");
    assert_eq!(plan.filter.as_deref(), Some("Doc"));
    assert_eq!(plan.parent.as_deref(), Some("/home"));
    let root = plan_path("/", true);
    assert_eq!(root.parent, None);
}

#[test]
fn dmenu_subsequence_match() {
    let lines = vec!["apple".to_string(), "banana".to_string(), "grape".to_string()];
    let r = search_dmenu("ap".to_string(), lines, Config::default());
    assert!(r.contains(&"apple".to_string()));
    assert!(!r.contains(&"banana".to_string()));
}

#[test]
fn dmenu_allow_invalid_echoes_query() {
    let mut config = Config::default();
    config.dmenu.allow_invalid = true;
    let r = search_dmenu("ap".to_string(), Vec::new(), config);
    assert_eq!(r, vec!["ap".to_string()]);
}

#[test]
fn dmenu_case_insensitive_by_default() {
    let lines = vec!["Apple".to_string(), "Cherry".to_string()];
    let r = search_dmenu("AP".to_string(), lines.clone(), Config::default());
    assert_eq!(r, vec!["Apple".to_string()]);
    let mut config = Config::default();
    config.dmenu.case_sensitive = true;
    let r = search_dmenu("AP".to_string(), lines, config);
    assert!(r.is_empty());
}

#[test]
fn web_search_fallback_alone() {
    let mut config = Config::default();
    config.web_search.enabled = true;
    let r = search_applications("xyz-nonexistent-app", &config, &Catalogue::new(), &History::new(), &probes(7));
    assert_eq!(r.len(), 1);
    assert!(r[0].score < 0);
    assert_eq!(r[0].app.name, "Search 'xyz-nonexistent-app' on the web");
    assert_eq!(r[0].app.command, "xdg-open \"https://duckduckgo.com/?q=xyz%2Dnonexistent%2Dapp\"");
    assert_eq!(r[0].app.categories, vec!["Web Search".to_string()]);
}

#[test]
fn web_search_sinks_below_matches() {
    let mut config = Config::default();
    config.web_search.enabled = true;
    let cat = catalogue_of(vec![app("Terminal", "x")]);
    let r = search_applications("term", &config, &cat, &History::new(), &probes(7));
    assert_eq!(r.len(), 2);
    assert_eq!(r[0].app.name, "Terminal");
    assert_eq!(r[1].app.name, "Search 'term' on the web");
}

#[test]
fn excluded_token_gets_no_web_entry() {
    let mut config = Config::default();
    config.web_search.enabled = true;
    assert!(should_exclude_web_search("__REFRESH__"));
    assert!(!should_exclude_web_search("refresh"));
    for q in ["__refresh__", "__config_reload__", "__Config_Reload__"] {
        let r = search_applications(q, &config, &Catalogue::new(), &History::new(), &probes(7));
        assert!(r.iter().all(|x| !x.app.categories.contains(&"Web Search".to_string())));
        assert!(r.is_empty());
    }
}

#[test]
fn web_search_prefix() {
    let mut config = Config::default();
    config.web_search.enabled = true;
    config.web_search.prefixes = vec![SearchPrefix {
        prefix: "gh".to_string(),
        url: "https://github.com/search?q=".to_string(),
    }];
    let w = create_web_search_entry("gh:rust lang", &config.web_search, 3);
    assert_eq!(w.app.name, "Search 'rust lang' on gh");
    assert_eq!(w.app.command, "xdg-open \"https://github.com/search?q=rust%20lang\"");
    assert_eq!(w.score, -1000);
    let w = create_web_search_entry("xx:rust", &config.web_search, 3);
    assert_eq!(w.app.name, "Search 'xx:rust' on the web");
}

#[test]
fn engine_urls() {
    assert_eq!(SearchEngine::Preset(PresetEngine::Google).get_url(), "https://www.google.com/search?q=");
    assert_eq!(SearchEngine::Preset(PresetEngine::Startpage).get_url(), "https://www.startpage.com/do/search?q=");
    assert_eq!(SearchEngine::Custom("https://x/?q=".to_string()).get_url(), "https://x/?q=");
    assert_eq!(SearchEngine::default().get_url(), "https://duckduckgo.com/?q=");
}

#[test]
fn binary_probe_entry() {
    let r = check_binary("ls -la /tmp", true, 42).unwrap();
    assert_eq!(r.app.name, "ls -la /tmp");
    assert_eq!(r.app.path, "/usr/bin/ls");
    assert_eq!(r.app.command, "/usr/bin/ls -la /tmp");
    assert_eq!(r.score, 3000);
    assert_eq!(r.app.last_used, Some(42));
    assert!(check_binary("ls", false, 42).is_none());
    assert!(check_binary("   ", true, 42).is_none());
    assert_eq!(check_binary("ls", true, 1).unwrap().app.command, "/usr/bin/ls");
}

#[test]
fn binary_result_when_nothing_named_so() {
    let p = Probes { now: 5, windows: Vec::new(), binary_found: true, listing: None };
    let r = search_applications("htop", &Config::default(), &Catalogue::new(), &History::new(), &p);
    assert_eq!(r.len(), 1);
    assert_eq!(r[0].app.command, "/usr/bin/htop");
    let cat = catalogue_of(vec![app("htop", "x")]);
    let r = search_applications("htop", &Config::default(), &cat, &History::new(), &p);
    assert_eq!(r.len(), 1);
    assert_eq!(r[0].app.command, "htop");
}

#[test]
fn calculation_text() {
    assert_eq!(calc_display(Ok("4 (dimensionless)".to_string())), "4");
    assert_eq!(calc_display(Ok("12".to_string())), "12");
    assert_eq!(calc_display(Err("parse error".to_string())), "0");
    assert_eq!(calc_display(Ok("(x)".to_string())), "(x)");
    assert_eq!(calc_display(Ok("1.5 (a) (b)".to_string())), "1.5");
}

#[test]
fn calculator_entry_for_digits() {
    let r = search_applications("2+2", &Config::default(), &Catalogue::new(), &History::new(), &probes(1));
    assert_eq!(r.len(), 1);
    assert_eq!(r[0].app.name, "4");
    assert_eq!(r[0].score, 1000);
    assert_eq!(r[0].app.command, "wl-copy -t text/plain \"4\"");
    let mut config = Config::default();
    config.modes.calculator = false;
    let r = search_applications("2+2", &config, &Catalogue::new(), &History::new(), &probes(1));
    assert!(r.is_empty());
}

#[test]
fn query_modes() {
    assert_eq!(classify_query(""), QueryMode::Browse);
    assert_eq!(classify_query("$HOME/x"), QueryMode::Path);
    assert_eq!(classify_query("/usr"), QueryMode::Path);
    assert_eq!(classify_query("fire"), QueryMode::Fuzzy);
    let r = search_applications("/usr", &Config::default(), &Catalogue::new(), &History::new(), &probes(1));
    assert!(r.is_empty());
}

#[test]
fn zero_limit_gives_nothing() {
    let cat = catalogue_of(vec![app("Editor", "x")]);
    let mut config = Config::default();
    config.window.max_entries = 0;
    config.web_search.enabled = true;
    assert!(search_applications("", &config, &cat, &History::new(), &probes(1)).is_empty());
    assert!(search_applications("edit", &config, &cat, &History::new(), &probes(1)).is_empty());
    let mut d = Config::default();
    d.window.max_entries = 0;
    d.dmenu.allow_invalid = true;
    assert!(search_dmenu("x".to_string(), Vec::new(), d).is_empty());
}

#[test]
fn bonus_with_clock_behind_last_use() {
    let mut heat: Heatmap = Heatmap::new();
    heat.insert("Editor", HeatmapEntry { count: 50, last_used: 5000 });
    let history = load_history(&heat);
    let a = app("Editor", "application-x-executable");
    assert_eq!(calculate_bonus_score(&a, &history, 10, &Vec::new()), 10000 + 200);
}

#[test]
fn hidden_files_and_filter() {
    let items = vec![
        DirItem { name: ".config".to_string(), kind: ItemKind::Folder },
        DirItem { name: "Downloads".to_string(), kind: ItemKind::Folder },
        DirItem { name: "run.sh".to_string(), kind: ItemKind::Executable },
        DirItem { name: "data.csv".to_string(), kind: ItemKind::Other("text-csv".to_string()) },
    ];
    let plan = plan_path("/home/u/do", false);
    assert_eq!(plan.dir, "/home/u");
    let listing = Listing { plan, items: items.clone() };
    let p = Probes { now: 1, windows: Vec::new(), binary_found: false, listing: Some(listing) };
    let r = search_applications("~/do", &Config::default(), &Catalogue::new(), &History::new(), &p);
    let names: Vec<&str> = r.iter().map(|x| x.app.name.as_str()).collect();
    assert_eq!(names, vec!["..", "Downloads"]);
    let listing = Listing { plan: plan_path("/home/u", true), items };
    let p = Probes { now: 1, windows: Vec::new(), binary_found: false, listing: Some(listing) };
    let mut config = Config::default();
    config.modes.show_hidden = true;
    let r = search_applications("~", &config, &Catalogue::new(), &History::new(), &p);
    let names: Vec<&str> = r.iter().map(|x| x.app.name.as_str()).collect();
    assert_eq!(names, vec!["..", ".config", "Downloads", "data.csv", "run.sh"]);
    assert_eq!(r[4].app.command, "/home/u/run.sh");
    assert_eq!(r[4].app.icon_name, "application-x-executable");
    assert_eq!(r[3].app.icon_name, "text-csv");
    assert_eq!(r[1].score, 500);
}

#[test]
fn dmenu_free_form_keeps_query_as_typed() {
    let mut config = Config::default();
    config.dmenu.allow_invalid = true;
    let r = search_dmenu("Zebra Crossing".to_string(), vec!["apple".to_string()], config);
    assert_eq!(r, vec!["Zebra Crossing".to_string()]);
}

#[test]
fn browse_lists_applications_only() {
    let mut f = app("notes", "x");
    f.entry_type = EntryType::File;
    let cat = catalogue_of(vec![f, app("Editor", "x")]);
    let r = search_applications("", &Config::default(), &cat, &History::new(), &probes(1));
    let names: Vec<&str> = r.iter().map(|x| x.app.name.as_str()).collect();
    assert_eq!(names, vec!["Editor"]);
}

#[test]
fn actions_match_on_composed_label() {
    let mut a = app("Firefox", "application-x-executable");
    a.actions = vec![DesktopAction {
        name: "Private".to_string(),
        command: "firefox --private-window".to_string(),
        icon_name: None,
    }];
    let cat = catalogue_of(vec![a]);
    let mut config = Config::default();
    config.window.show_actions = true;
    let r = search_applications("fox - priv", &config, &cat, &History::new(), &probes(1));
    assert!(r.iter().any(|x| x.app.name == "Firefox - Private"));
}

#[test]
fn calculator_guards_rink() {
    let r = search_applications("1 __super_secret_plz_crash", &Config::default(), &Catalogue::new(), &History::new(), &probes(1));
    assert_eq!(r.len(), 1);
    assert_eq!(r[0].app.name, "0");
    let long = format!("1+{}", "1".repeat(300));
    let r = search_applications(&long, &Config::default(), &Catalogue::new(), &History::new(), &probes(1));
    assert_eq!(r[0].app.name, "0");
    let nested = format!("1+{}1{}", "(".repeat(120), ")".repeat(120));
    let r = search_applications(&nested, &Config::default(), &Catalogue::new(), &History::new(), &probes(1));
    assert_eq!(r[0].app.name, "2");
}

#[test]
fn calculator_only_takes_plain_arithmetic() {
    assert_eq!(handle_calculation("now -> +99:00"), "0");
    assert_eq!(handle_calculation("9**2000000000"), "0");
    assert_eq!(handle_calculation("9^2000000000"), "0");
    assert_eq!(handle_calculation("1 / 0"), "0");
    assert_eq!(handle_calculation("(1 + 2) * 3 - 4 / 2"), "7");
}

#[test]
fn fuzzy_ties_break_by_name() {
    let cat = catalogue_of(vec![app("Zed Editor", "x"), app("Atom Editor", "x")]);
    let r = search_applications("editor", &Config::default(), &cat, &History::new(), &probes(1));
    assert_eq!(r.len(), 2);
    assert_eq!(r[0].score, r[1].score);
    assert_eq!(r[0].app.name, "Atom Editor");
}
