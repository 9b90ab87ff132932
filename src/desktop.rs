//! Descriptor parsing: one desktop file's values turned into a catalogue entry.
use crate::entry::{
    action_views, strip_field_codes, stripped_command, ActionView, AppEntry, DesktopAction,
    EntryType, EntryView, GENERIC_ICON,
};
use crate::text::{
    chars_of, concat, opt_view, owned, pieces, split_pieces, str_eq, string_of, upper_of,
    uppercase, views,
};
use freedesktop_entry_parser::Entry;
use vstd::prelude::*;

verus! {

#[verifier::external_type_specification]
#[verifier::external_body]
pub struct ExEntry(Entry);

/// The values a parsed desktop file holds, by section, key and optional locale parameter.
pub uninterp spec fn entry_values(e: Entry) -> Map<(Seq<char>, Seq<char>, Option<Seq<char>>), Seq<char>>;

/// What `Entry::parse` makes of a file's bytes: its values, or `None` when they are malformed.
pub uninterp spec fn parsed_values(bytes: Seq<u8>) -> Option<
    Map<(Seq<char>, Seq<char>, Option<Seq<char>>), Seq<char>>,
>;

/// Relies on `freedesktop_entry_parser::Entry::parse`: the file's sections, or `None` when the
/// bytes are not a well-formed desktop file; the outcome depends on the bytes alone.
#[verifier::external_body]
fn parse_bytes(bytes: Vec<u8>) -> (r: Option<Entry>)
    ensures
        match r {
            Some(e) => parsed_values(bytes@) == Some(entry_values(e)),
            None => parsed_values(bytes@) is None,
        },
{
    Entry::parse(bytes).ok()
}

/// Relies on `AttrSelector::attr`: the value of `key` without a parameter in `section`.
#[verifier::external_body]
fn section_attr(e: &Entry, section: &str, key: &str) -> (r: Option<String>)
    ensures
        opt_view(r) == value_of(entry_values(*e), section@, key@, None),
{
    e.section(section).attr(key).map(String::from)
}

/// Relies on `AttrSelector::attr_with_param`: the value of `key[param]` in `section`.
#[verifier::external_body]
fn section_attr_with_param(e: &Entry, section: &str, key: &str, param: &str) -> (r: Option<String>)
    ensures
        opt_view(r) == value_of(entry_values(*e), section@, key@, Some(param@)),
{
    e.section(section).attr_with_param(key, param).map(String::from)
}

pub open spec fn value_of(
    vals: Map<(Seq<char>, Seq<char>, Option<Seq<char>>), Seq<char>>,
    section: Seq<char>,
    key: Seq<char>,
    param: Option<Seq<char>>,
) -> Option<Seq<char>> {
    if vals.contains_key((section, key, param)) {
        Some(vals[(section, key, param)])
    } else {
        None
    }
}

pub open spec fn main_value(
    vals: Map<(Seq<char>, Seq<char>, Option<Seq<char>>), Seq<char>>,
    key: Seq<char>,
) -> Option<Seq<char>> {
    value_of(vals, "Desktop Entry"@, key, None)
}

/// A localized value: `key[lang]` when present, else plain `key`.
pub open spec fn localized(
    vals: Map<(Seq<char>, Seq<char>, Option<Seq<char>>), Seq<char>>,
    key: Seq<char>,
    lang: Seq<char>,
) -> Option<Seq<char>> {
    match value_of(vals, "Desktop Entry"@, key, Some(lang)) {
        Some(v) => Some(v),
        None => main_value(vals, key),
    }
}

pub open spec fn upper_list(ws: Seq<Seq<char>>) -> Seq<Seq<char>> {
    ws.map_values(|w: Seq<char>| upper_of(w))
}

/// The two lists share a string.
pub open spec fn shares(a: Seq<Seq<char>>, b: Seq<Seq<char>>) -> bool {
    exists|i: int, j: int| 0 <= i < a.len() && 0 <= j < b.len() && #[trigger] a[i] == #[trigger] b[j]
}

/// The current desktops: the colon-separated environment value, upper-cased.
pub open spec fn current_desktops(env: Seq<char>) -> Seq<Seq<char>> {
    upper_list(pieces(upper_of(env), Some(':')))
}

/// Whether the `OnlyShowIn` / `NotShowIn` lists let the entry show on the current desktops.
pub open spec fn shown_here(
    vals: Map<(Seq<char>, Seq<char>, Option<Seq<char>>), Seq<char>>,
    env: Seq<char>,
) -> bool {
    (match main_value(vals, "OnlyShowIn"@) {
        Some(l) => shares(current_desktops(env), upper_list(pieces(l, Some(';')))),
        None => true,
    }) && (match main_value(vals, "NotShowIn"@) {
        Some(l) => !shares(current_desktops(env), upper_list(pieces(l, Some(';')))),
        None => true,
    })
}

pub open spec fn action_section(name: Seq<char>) -> Seq<char> {
    "Desktop Action "@ + name
}

/// A named action, when its section has a command.
pub open spec fn parsed_action(
    vals: Map<(Seq<char>, Seq<char>, Option<Seq<char>>), Seq<char>>,
    name: Seq<char>,
) -> Option<ActionView> {
    let sec = action_section(name);
    match value_of(vals, sec, "Exec"@, None) {
        Some(raw) => Some(
            ActionView {
                name: match value_of(vals, sec, "Name"@, None) {
                    Some(n) => n,
                    None => name,
                },
                command: stripped_command(raw),
                icon_name: value_of(vals, sec, "Icon"@, None),
            },
        ),
        None => None,
    }
}

/// The actions named in the list that have a command, in list order.
pub open spec fn parsed_actions(
    vals: Map<(Seq<char>, Seq<char>, Option<Seq<char>>), Seq<char>>,
    names: Seq<Seq<char>>,
) -> Seq<ActionView>
    decreases names.len(),
{
    if names.len() == 0 {
        Seq::empty()
    } else {
        parsed_actions(vals, names.drop_last()) + match parsed_action(vals, names.last()) {
            Some(a) => seq![a],
            None => Seq::empty(),
        }
    }
}

pub open spec fn list_value(
    vals: Map<(Seq<char>, Seq<char>, Option<Seq<char>>), Seq<char>>,
    key: Seq<char>,
) -> Seq<Seq<char>> {
    match main_value(vals, key) {
        Some(l) => pieces(l, Some(';')),
        None => Seq::empty(),
    }
}

/// The catalogue entry a desktop file describes, or `None` when it is hidden, not for the
/// current desktops, or has no name.
pub open spec fn desktop_entry(
    vals: Map<(Seq<char>, Seq<char>, Option<Seq<char>>), Seq<char>>,
    path: Seq<char>,
    env: Seq<char>,
    lang: Seq<char>,
) -> Option<EntryView> {
    if main_value(vals, "NoDisplay"@) == Some("true"@) || !shown_here(vals, env) {
        None
    } else {
        match localized(vals, "Name"@, lang) {
            None => None,
            Some(name) => Some(
                EntryView {
                    name,
                    description: match localized(vals, "Comment"@, lang) {
                        Some(c) => c,
                        None => match localized(vals, "GenericName"@, lang) {
                            Some(g) => g,
                            None => Seq::empty(),
                        },
                    },
                    path,
                    command: stripped_command(
                        match localized(vals, "Exec"@, lang) {
                            Some(x) => x,
                            None => Seq::empty(),
                        },
                    ),
                    icon_name: match main_value(vals, "Icon"@) {
                        Some(i) => i,
                        None => GENERIC_ICON@,
                    },
                    launch_count: 0,
                    last_used: None,
                    entry_type: EntryType::Application,
                    score_boost: 0,
                    keywords: list_value(vals, "Keywords"@),
                    categories: list_value(vals, "Categories"@),
                    terminal: main_value(vals, "Terminal"@) == Some("true"@),
                    actions: match main_value(vals, "Actions"@) {
                        Some(l) => parsed_actions(vals, pieces(l, Some(';'))),
                        None => Seq::empty(),
                    },
                },
            ),
        }
    }
}

pub open spec fn entry_view_of(o: Option<AppEntry>) -> Option<EntryView> {
    match o {
        Some(e) => Some(e@),
        None => None,
    }
}

/// The locale of a `LANG`-style value: what precedes the first `.`.
pub open spec fn locale_of(s: Seq<char>) -> Seq<char> {
    if exists|k: int| 0 <= k < s.len() && s[k] == '.' {
        let k = choose|k: int| 0 <= k < s.len() && s[k] == '.' && forall|j: int| 0 <= j < k ==> s[j] != '.';
        s.subrange(0, k)
    } else {
        s
    }
}

/// The locale part of a `LANG`-style value (`de_DE.UTF-8` gives `de_DE`).
pub fn locale_name(lang: &str) -> (r: String)
    ensures
        r@ == locale_of(lang@),
{
    let v = chars_of(lang);
    let mut out: Vec<char> = Vec::new();
    let mut i: usize = 0;
    while i < v.len() && v[i] != '.'
        invariant
            v@ == lang@,
            i <= v.len(),
            out@ == v@.subrange(0, i as int),
            forall|j: int| 0 <= j < i ==> v@[j] != '.',
        decreases v.len() - i,
    {
        out.push(v[i]);
        i += 1;
    }
    if i < v.len() {
        let ghost k = choose|k: int| 0 <= k < lang@.len() && lang@[k] == '.' && forall|j: int| 0 <= j < k ==> lang@[j] != '.';
        assert(0 <= i < lang@.len() && lang@[i as int] == '.' && forall|j: int| 0 <= j < i ==> lang@[j] != '.');
        assert(k == i) by {
            if k < i {
                assert(v@[k] != '.');
            } else if k > i {
                assert(lang@[i as int] != '.');
            }
        }
    } else {
        assert(out@ =~= lang@);
    }
    string_of(&out)
}

fn upper_all(ws: &Vec<String>) -> (r: Vec<String>)
    ensures
        views(r@) == upper_list(views(ws@)),
{
    let mut r: Vec<String> = Vec::new();
    let mut i: usize = 0;
    while i < ws.len()
        invariant
            i <= ws.len(),
            views(r@) == upper_list(views(ws@).subrange(0, i as int)),
        decreases ws.len() - i,
    {
        let ghost b = views(r@);
        r.push(uppercase(ws[i].as_str()));
        assert(views(r@) =~= b.push(upper_of(ws@[i as int]@)));
        assert(upper_list(views(ws@).subrange(0, i + 1)) =~= upper_list(views(ws@).subrange(0, i as int)).push(upper_of(ws@[i as int]@)));
        i += 1;
    }
    assert(views(ws@).subrange(0, ws.len() as int) =~= views(ws@));
    r
}

fn share_any(a: &Vec<String>, b: &Vec<String>) -> (r: bool)
    ensures
        r == shares(views(a@), views(b@)),
{
    let mut i: usize = 0;
    while i < a.len()
        invariant
            i <= a.len(),
            forall|x: int, y: int|
                0 <= x < i && 0 <= y < b.len() ==> #[trigger] views(a@)[x] != #[trigger] views(b@)[y],
        decreases a.len() - i,
    {
        let mut j: usize = 0;
        while j < b.len()
            invariant
                i < a.len(),
                j <= b.len(),
                forall|x: int, y: int|
                    0 <= x < i && 0 <= y < b.len() ==> #[trigger] views(a@)[x] != #[trigger] views(b@)[y],
                forall|y: int| 0 <= y < j ==> views(a@)[i as int] != #[trigger] views(b@)[y],
            decreases b.len() - j,
        {
            if str_eq(a[i].as_str(), b[j].as_str()) {
                assert(views(a@)[i as int] == views(b@)[j as int]);
                return true;
            }
            j += 1;
        }
        i += 1;
    }
    false
}

fn list_of(e: &Entry, key: &str) -> (r: Vec<String>)
    ensures
        views(r@) == list_value(entry_values(*e), key@),
{
    match section_attr(e, "Desktop Entry", key) {
        Some(l) => split_pieces(l.as_str(), Some(';')),
        None => {
            let r: Vec<String> = Vec::new();
            assert(views(r@) =~= Seq::<Seq<char>>::empty());
            r
        },
    }
}

fn localized_value(e: &Entry, key: &str, lang: &str) -> (r: Option<String>)
    ensures
        opt_view(r) == localized(entry_values(*e), key@, lang@),
{
    match section_attr_with_param(e, "Desktop Entry", key, lang) {
        Some(v) => Some(v),
        None => section_attr(e, "Desktop Entry", key),
    }
}

fn is_true(o: &Option<String>) -> (r: bool)
    ensures
        r == (opt_view(*o) == Some("true"@)),
{
    match o {
        Some(v) => str_eq(v.as_str(), "true"),
        None => false,
    }
}

fn actions_of(e: &Entry, list: &str) -> (r: Vec<DesktopAction>)
    ensures
        action_views(r@) == parsed_actions(entry_values(*e), pieces(list@, Some(';'))),
{
    let names = split_pieces(list, Some(';'));
    let mut out: Vec<DesktopAction> = Vec::new();
    let mut i: usize = 0;
    while i < names.len()
        invariant
            i <= names.len(),
            views(names@) == pieces(list@, Some(';')),
            action_views(out@) == parsed_actions(entry_values(*e), views(names@).subrange(0, i as int)),
        decreases names.len() - i,
    {
        let name = &names[i];
        let ghost pre = views(names@).subrange(0, i as int);
        assert(views(names@).subrange(0, i + 1).drop_last() =~= pre);
        assert(views(names@).subrange(0, i + 1).last() == name@);
        let section = concat("Desktop Action ", name.as_str());
        match section_attr(e, section.as_str(), "Exec") {
            Some(raw) => {
                let action_name = match section_attr(e, section.as_str(), "Name") {
                    Some(n) => n,
                    None => name.clone(),
                };
                let a = DesktopAction {
                    name: action_name,
                    command: strip_field_codes(raw.as_str()),
                    icon_name: section_attr(e, section.as_str(), "Icon"),
                };
                let ghost b = action_views(out@);
                out.push(a);
                assert(action_views(out@) =~= b.push(a@));
            },
            None => {},
        }
        i += 1;
    }
    assert(views(names@).subrange(0, names.len() as int) =~= views(names@));
    out
}

/// The catalogue entry of a parsed desktop file (see `desktop_entry`); `desktop_env` is the
/// colon-separated list of current desktops, `lang` the locale for localized keys.
pub fn entry_from_desktop(e: &Entry, path: &str, desktop_env: &str, lang: &str) -> (r: Option<AppEntry>)
    ensures
        entry_view_of(r) == desktop_entry(entry_values(*e), path@, desktop_env@, lang@),
{
    let ghost vals = entry_values(*e);
    if is_true(&section_attr(e, "Desktop Entry", "NoDisplay")) {
        return None;
    }
    let desktops = upper_all(&split_pieces(uppercase(desktop_env).as_str(), Some(':')));
    match section_attr(e, "Desktop Entry", "OnlyShowIn") {
        Some(l) => {
            let allowed = upper_all(&split_pieces(l.as_str(), Some(';')));
            if !share_any(&desktops, &allowed) {
                return None;
            }
        },
        None => {},
    }
    match section_attr(e, "Desktop Entry", "NotShowIn") {
        Some(l) => {
            let excluded = upper_all(&split_pieces(l.as_str(), Some(';')));
            if share_any(&desktops, &excluded) {
                return None;
            }
        },
        None => {},
    }
    let name = match localized_value(e, "Name", lang) {
        Some(n) => n,
        None => {
            return None;
        },
    };
    let raw_exec = match localized_value(e, "Exec", lang) {
        Some(x) => x,
        None => String::new(),
    };
    let command = strip_field_codes(raw_exec.as_str());
    let icon_name = match section_attr(e, "Desktop Entry", "Icon") {
        Some(i) => i,
        None => owned(GENERIC_ICON),
    };
    let description = match localized_value(e, "Comment", lang) {
        Some(c) => c,
        None => match localized_value(e, "GenericName", lang) {
            Some(g) => g,
            None => String::new(),
        },
    };
    let keywords = list_of(e, "Keywords");
    let categories = list_of(e, "Categories");
    let terminal = is_true(&section_attr(e, "Desktop Entry", "Terminal"));
    let actions = match section_attr(e, "Desktop Entry", "Actions") {
        Some(l) => actions_of(e, l.as_str()),
        None => {
            let r: Vec<DesktopAction> = Vec::new();
            assert(action_views(r@) =~= Seq::<ActionView>::empty());
            r
        },
    };
    let app = AppEntry {
        name,
        description,
        path: owned(path),
        command,
        icon_name,
        launch_count: 0,
        last_used: None,
        entry_type: EntryType::Application,
        score_boost: 0,
        keywords,
        categories,
        terminal,
        actions,
    };
    assert(app@ == desktop_entry(vals, path@, desktop_env@, lang@)->0);
    Some(app)
}

/// Parses one desktop file's bytes into a catalogue entry; a malformed, hidden or filtered-out
/// file gives `None`.
pub fn parse_desktop_entry(bytes: Vec<u8>, path: &str, desktop_env: &str, lang: &str) -> (r: Option<
    AppEntry,
>)
    ensures
        entry_view_of(r) == match parsed_values(bytes@) {
            Some(vals) => desktop_entry(vals, path@, desktop_env@, lang@),
            None => None,
        },
{
    match parse_bytes(bytes) {
        Some(e) => entry_from_desktop(&e, path, desktop_env, lang),
        None => None,
    }
}

} // verus!
