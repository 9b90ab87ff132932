//! Path mode: a directory listing turned into results, with a ".." entry first.
use crate::entry::{AppEntry, EntryType, EntryView, GENERIC_ICON};
use crate::matching::{fuzzy_accepts, fuzzy_match, skim_score};
use crate::rank::{result_views, sort_results, sorted_by, Order, ResultView, SearchResult};
use crate::search::truncated;
use crate::text::{chars_of, concat, opt_view, owned, string_of};
use vstd::prelude::*;

verus! {

/// The static score boost of a folder.
pub const BONUS_SCORE_FOLDER: i64 = 500;

/// The score of the ".." entry: above every other result.
pub const PARENT_SCORE: i64 = 9223372036854775807;

/// What a directory item is, as the filesystem and the MIME lookup told.
#[derive(Clone, Debug, PartialEq, Eq)]
pub enum ItemKind {
    Folder,
    /// A file with an execute bit set.
    Executable,
    /// Any other file, with the icon its MIME type maps to.
    Other(String),
}

/// One item of a listed directory.
#[derive(Clone, Debug, PartialEq, Eq)]
pub struct DirItem {
    pub name: String,
    pub kind: ItemKind,
}

/// Which directory to list for a path query, what to filter it by, and its parent.
#[derive(Clone, Debug)]
pub struct PathPlan {
    pub dir: String,
    pub filter: Option<String>,
    pub parent: Option<String>,
}

/// A planned directory and its items.
pub struct Listing {
    pub plan: PathPlan,
    pub items: Vec<DirItem>,
}

/// `k` is the position of the last `/` in `p`.
pub open spec fn is_last_slash(p: Seq<char>, k: int) -> bool {
    0 <= k < p.len() && p[k] == '/' && forall|j: int| k < j < p.len() ==> p[j] != '/'
}

/// A path without its trailing `/` (the root stays as it is).
pub open spec fn trim_slash(p: Seq<char>) -> Seq<char> {
    if p.len() > 1 && p.last() == '/' {
        p.drop_last()
    } else {
        p
    }
}

/// The directory part of a path (up to its last `/`, the root for `/x`) and the rest.
pub open spec fn dir_part(p: Seq<char>) -> Seq<char> {
    if exists|k: int| is_last_slash(p, k) {
        let k = choose|k: int| is_last_slash(p, k);
        if k == 0 {
            seq!['/']
        } else {
            p.subrange(0, k)
        }
    } else {
        Seq::empty()
    }
}

pub open spec fn name_part(p: Seq<char>) -> Seq<char> {
    if exists|k: int| is_last_slash(p, k) {
        let k = choose|k: int| is_last_slash(p, k);
        p.subrange(k + 1, p.len() as int)
    } else {
        p
    }
}

/// The parent of a directory, if it has one.
pub open spec fn parent_dir(d: Seq<char>) -> Option<Seq<char>> {
    let t = trim_slash(d);
    if t == seq!['/'] || !exists|k: int| is_last_slash(t, k) {
        None
    } else {
        Some(dir_part(t))
    }
}

/// An existing directory is listed whole; otherwise its parent is listed, filtered by the
/// last path segment.
pub open spec fn planned(expanded: Seq<char>, is_dir: bool) -> (Seq<char>, Option<Seq<char>>, Option<
    Seq<char>,
>) {
    if is_dir {
        (expanded, None, parent_dir(expanded))
    } else {
        let d = dir_part(expanded);
        let f = name_part(expanded);
        (d, if f.len() > 0 {
            Some(f)
        } else {
            None
        }, parent_dir(d))
    }
}

fn last_slash(v: &Vec<char>) -> (r: Option<usize>)
    ensures
        match r {
            Some(k) => is_last_slash(v@, k as int) && k == choose|k: int| is_last_slash(v@, k),
            None => !exists|k: int| is_last_slash(v@, k),
        },
{
    let mut i: usize = v.len();
    while i > 0
        invariant
            i <= v.len(),
            forall|j: int| i <= j < v.len() ==> v@[j] != '/',
        decreases i,
    {
        if v[i - 1] == '/' {
            let k = i - 1;
            assert(is_last_slash(v@, k as int));
            let ghost c = choose|c: int| is_last_slash(v@, c);
            assert(c == k) by {
                if c < k {
                    assert(v@[k as int] != '/');
                } else if c > k {
                    assert(v@[c] != '/');
                }
            }
            return Some(k);
        }
        i -= 1;
    }
    assert(!exists|k: int| is_last_slash(v@, k)) by {
        if exists|k: int| is_last_slash(v@, k) {
            let k = choose|k: int| is_last_slash(v@, k);
            assert(v@[k] != '/');
        }
    }
    None
}

fn prefix_chars(v: &Vec<char>, n: usize) -> (r: String)
    requires
        n <= v.len(),
    ensures
        r@ == v@.subrange(0, n as int),
{
    let mut out: Vec<char> = Vec::new();
    let mut i: usize = 0;
    while i < n
        invariant
            n <= v.len(),
            i <= n,
            out@ == v@.subrange(0, i as int),
        decreases n - i,
    {
        out.push(v[i]);
        i += 1;
    }
    string_of(&out)
}

fn suffix_chars(v: &Vec<char>, n: usize) -> (r: String)
    requires
        n <= v.len(),
    ensures
        r@ == v@.subrange(n as int, v.len() as int),
{
    let mut out: Vec<char> = Vec::new();
    let mut i: usize = n;
    while i < v.len()
        invariant
            n <= i <= v.len(),
            out@ == v@.subrange(n as int, i as int),
        decreases v.len() - i,
    {
        out.push(v[i]);
        i += 1;
    }
    string_of(&out)
}

fn split_dir(v: &Vec<char>) -> (r: (String, String))
    ensures
        r.0@ == dir_part(v@),
        r.1@ == name_part(v@),
{
    match last_slash(v) {
        Some(k) => {
            assert(k < v.len());
            let d = if k == 0 {
                let r = owned("/");
                proof {
                    reveal_strlit("/");
                }
                assert(r@ =~= seq!['/']);
                r
            } else {
                prefix_chars(v, k)
            };
            (d, suffix_chars(v, k + 1))
        },
        None => {
            assert(v@.subrange(0, v.len() as int) =~= v@);
            (String::new(), prefix_chars(v, v.len()))
        },
    }
}

fn parent_of(d: &str) -> (r: Option<String>)
    ensures
        match r {
            Some(p) => parent_dir(d@) == Some(p@),
            None => parent_dir(d@) is None,
        },
{
    let v = chars_of(d);
    let t: Vec<char> = if v.len() > 1 && v[v.len() - 1] == '/' {
        let s = prefix_chars(&v, v.len() - 1);
        let t = chars_of(s.as_str());
        assert(t@ =~= v@.drop_last());
        t
    } else {
        v
    };
    assert(t@ == trim_slash(d@));
    if t.len() == 1 && t[0] == '/' {
        assert(t@ =~= seq!['/']);
        return None;
    }
    assert(t@ != seq!['/']);
    match last_slash(&t) {
        Some(_) => {
            let (p, _) = split_dir(&t);
            Some(p)
        },
        None => None,
    }
}

/// The listing plan for an expanded path query (see `planned`).
pub fn plan_path(expanded: &str, is_dir: bool) -> (r: PathPlan)
    ensures
        planned(expanded@, is_dir) == (r.dir@, match r.filter {
            Some(f) => Some(f@),
            None => None,
        }, match r.parent {
            Some(p) => Some(p@),
            None => None,
        }),
{
    if is_dir {
        let parent = parent_of(expanded);
        PathPlan { dir: owned(expanded), filter: None, parent }
    } else {
        let v = chars_of(expanded);
        let (d, f) = split_dir(&v);
        let parent = parent_of(d.as_str());
        let filter = if f.as_str().is_empty() {
            None
        } else {
            Some(f)
        };
        PathPlan { dir: d, filter, parent }
    }
}

/// A dotfile.
pub open spec fn is_hidden(name: Seq<char>) -> bool {
    name.len() > 0 && name[0] == '.'
}

/// The full path of an item of `dir`.
pub open spec fn item_path(dir: Seq<char>, name: Seq<char>) -> Seq<char> {
    if dir.len() > 0 && dir.last() == '/' {
        dir + name
    } else {
        dir + "/"@ + name
    }
}

pub open spec fn item_boost(it: DirItem) -> int {
    if it.kind == ItemKind::Folder {
        BONUS_SCORE_FOLDER as int
    } else {
        0
    }
}

/// The entry for an item: folders are opened by navigation, executables run, other files are
/// opened with the desktop's default application.
pub open spec fn item_entry(dir: Seq<char>, it: DirItem) -> EntryView {
    let p = item_path(dir, it.name@);
    EntryView {
        name: it.name@,
        description: Seq::empty(),
        path: p,
        command: match it.kind {
            ItemKind::Folder => Seq::empty(),
            ItemKind::Executable => p,
            ItemKind::Other(_) => "xdg-open \""@ + p + "\""@,
        },
        icon_name: match it.kind {
            ItemKind::Folder => "folder"@,
            ItemKind::Executable => GENERIC_ICON@,
            ItemKind::Other(icon) => icon@,
        },
        launch_count: 0,
        last_used: None,
        entry_type: EntryType::File,
        score_boost: item_boost(it) as i64,
        keywords: Seq::empty(),
        categories: Seq::empty(),
        terminal: false,
        actions: Seq::empty(),
    }
}

/// The score of an item: its folder boost, plus its fuzzy score against the filter (an item
/// the filter does not match is left out).
pub open spec fn item_score(it: DirItem, filter: Option<Seq<char>>) -> Option<int> {
    match filter {
        None => Some(item_boost(it)),
        Some(f) => if fuzzy_accepts(it.name@, f) {
            Some(skim_score(it.name@, f) + item_boost(it))
        } else {
            None
        },
    }
}

/// The visible, matching items of a directory in listing order.
pub open spec fn path_candidates(
    dir: Seq<char>,
    items: Seq<DirItem>,
    filter: Option<Seq<char>>,
    show_hidden: bool,
) -> Seq<ResultView>
    decreases items.len(),
{
    if items.len() == 0 {
        Seq::empty()
    } else {
        let it = items.last();
        path_candidates(dir, items.drop_last(), filter, show_hidden) + if (show_hidden
            || !is_hidden(it.name@)) && item_score(it, filter) is Some {
            seq![ResultView { entry: item_entry(dir, it), score: item_score(it, filter)->0 }]
        } else {
            Seq::empty()
        }
    }
}

/// The ".." entry that navigates to `p`.
pub open spec fn parent_entry(p: Seq<char>) -> EntryView {
    EntryView {
        name: ".."@,
        description: Seq::empty(),
        path: p,
        command: Seq::empty(),
        icon_name: "folder"@,
        launch_count: 0,
        last_used: None,
        entry_type: EntryType::File,
        score_boost: PARENT_SCORE,
        keywords: Seq::empty(),
        categories: Seq::empty(),
        terminal: false,
        actions: Seq::empty(),
    }
}

/// Path mode: ".." first when there is a parent, then the items by score and name, cut to `max`.
pub open spec fn path_results(
    dir: Seq<char>,
    filter: Option<Seq<char>>,
    parent: Option<Seq<char>>,
    items: Seq<DirItem>,
    show_hidden: bool,
    max: nat,
) -> Seq<ResultView> {
    truncated(
        (match parent {
            Some(p) => seq![ResultView { entry: parent_entry(p), score: PARENT_SCORE as int }],
            None => Seq::empty(),
        }) + sorted_by(path_candidates(dir, items, filter, show_hidden), Order::ByScoreThenName),
        max,
    )
}

fn empty_entry(name: String, path: String, command: String, icon: String, boost: i64) -> (r: AppEntry)
    ensures
        r@.name == name@ && r@.path == path@ && r@.command == command@ && r@.icon_name == icon@,
        r@.score_boost == boost,
        r@.description == Seq::<char>::empty(),
        r@.launch_count == 0 && r@.last_used is None && r@.entry_type == EntryType::File,
        r@.keywords == Seq::<Seq<char>>::empty() && r@.categories == Seq::<Seq<char>>::empty(),
        !r@.terminal,
        r@.actions == Seq::<crate::entry::ActionView>::empty(),
{
    let r = AppEntry {
        name,
        description: String::new(),
        path,
        command,
        icon_name: icon,
        launch_count: 0,
        last_used: None,
        entry_type: EntryType::File,
        score_boost: boost,
        keywords: Vec::new(),
        categories: Vec::new(),
        terminal: false,
        actions: Vec::new(),
    };
    assert(r@.keywords =~= Seq::<Seq<char>>::empty());
    assert(r@.categories =~= Seq::<Seq<char>>::empty());
    assert(r@.actions =~= Seq::<crate::entry::ActionView>::empty());
    assert(r@.description =~= Seq::<char>::empty());
    r
}

fn item_result(dir: &str, it: &DirItem, score: i64) -> (r: SearchResult)
    ensures
        r@ == (ResultView { entry: item_entry(dir@, *it), score: score as int }),
{
    let dv = chars_of(dir);
    let p = if dv.len() > 0 && dv[dv.len() - 1] == '/' {
        concat(dir, it.name.as_str())
    } else {
        concat(concat(dir, "/").as_str(), it.name.as_str())
    };
    let (command, icon, boost) = match &it.kind {
        ItemKind::Folder => (String::new(), owned("folder"), BONUS_SCORE_FOLDER),
        ItemKind::Executable => (p.clone(), owned(GENERIC_ICON), 0i64),
        ItemKind::Other(icon) => (
            concat(concat("xdg-open \"", p.as_str()).as_str(), "\""),
            icon.clone(),
            0i64,
        ),
    };
    let app = empty_entry(it.name.clone(), p, command, icon, boost);
    let r = SearchResult { app, score };
    assert(r@.entry == item_entry(dir@, *it));
    r
}

/// Path mode over a listed directory (see `path_results`).
pub fn search_path(listing: &Listing, show_hidden: bool, max: usize) -> (r: Vec<SearchResult>)
    ensures
        result_views(r@) == path_results(
            listing.plan.dir@,
            opt_view(listing.plan.filter),
            opt_view(listing.plan.parent),
            listing.items@,
            show_hidden,
            max as nat,
        ),
        r@.len() <= max,
{
    let dir = &listing.plan.dir;
    let items = &listing.items;
    let filter = &listing.plan.filter;
    let mut cands: Vec<SearchResult> = Vec::new();
    let mut i: usize = 0;
    while i < items.len()
        invariant
            i <= items.len(),
            items == &listing.items,
            dir == &listing.plan.dir,
            filter == &listing.plan.filter,
            result_views(cands@) == path_candidates(
                dir@,
                items@.subrange(0, i as int),
                opt_view(*filter),
                show_hidden,
            ),
        decreases items.len() - i,
    {
        let it = &items[i];
        let ghost pre = items@.subrange(0, i as int);
        assert(items@.subrange(0, i + 1).drop_last() =~= pre);
        let nv = chars_of(it.name.as_str());
        let visible = show_hidden || !(nv.len() > 0 && nv[0] == '.');
        let boost: i64 = match it.kind {
            ItemKind::Folder => BONUS_SCORE_FOLDER,
            _ => 0,
        };
        let score: Option<i64> = match filter {
            None => Some(boost),
            Some(f) => match fuzzy_match(it.name.as_str(), f.as_str()) {
                Some(s) => Some(s + boost),
                None => None,
            },
        };
        if visible {
            match score {
                Some(s) => {
                    let x = item_result(dir.as_str(), it, s);
                    let ghost b = result_views(cands@);
                    cands.push(x);
                    assert(result_views(cands@) =~= b.push(x@));
                },
                None => {},
            }
        }
        i += 1;
    }
    assert(items@.subrange(0, items.len() as int) =~= items@);
    let sorted = sort_results(cands, Order::ByScoreThenName);
    let mut out: Vec<SearchResult> = Vec::new();
    match &listing.plan.parent {
        Some(p) => {
            let app = empty_entry(owned(".."), p.clone(), String::new(), owned("folder"), PARENT_SCORE);
            let x = SearchResult { app, score: PARENT_SCORE };
            assert(x@.entry == parent_entry(p@));
            out.push(x);
        },
        None => {},
    }
    let ghost head = result_views(out@);
    let mut k: usize = 0;
    while k < sorted.len()
        invariant
            k <= sorted.len(),
            result_views(out@) == head + result_views(sorted@).subrange(0, k as int),
        decreases sorted.len() - k,
    {
        let ghost b = result_views(out@);
        out.push(sorted[k].duplicate());
        assert(result_views(out@) =~= b.push(sorted@[k as int]@));
        assert(result_views(sorted@).subrange(0, k + 1) =~= result_views(sorted@).subrange(0, k as int).push(sorted@[k as int]@));
        k += 1;
    }
    assert(result_views(sorted@).subrange(0, sorted.len() as int) =~= result_views(sorted@));
    assert(head == match opt_view(listing.plan.parent) {
        Some(p) => seq![ResultView { entry: parent_entry(p), score: PARENT_SCORE as int }],
        None => Seq::<ResultView>::empty(),
    }) by {
        if listing.plan.parent is Some {
            assert(head =~= seq![ResultView { entry: parent_entry(opt_view(listing.plan.parent)->0), score: PARENT_SCORE as int }]);
        } else {
            assert(head =~= Seq::<ResultView>::empty());
        }
    }
    let ghost all = result_views(out@);
    out.truncate(max);
    assert(result_views(out@) =~= truncated(all, max as nat));
    out
}

/// In path mode the ".." entry comes first whenever the listed directory has a parent.
pub proof fn lemma_parent_first(
    dir: Seq<char>,
    filter: Option<Seq<char>>,
    p: Seq<char>,
    items: Seq<DirItem>,
    show_hidden: bool,
    max: nat,
)
    requires
        max >= 1,
    ensures
        path_results(dir, filter, Some(p), items, show_hidden, max)[0].entry.name == ".."@,
        path_results(dir, filter, Some(p), items, show_hidden, max)[0].entry.path == p,
{
    let s = seq![ResultView { entry: parent_entry(p), score: PARENT_SCORE as int }] + sorted_by(
        path_candidates(dir, items, filter, show_hidden),
        Order::ByScoreThenName,
    );
    assert(s[0].entry == parent_entry(p));
}

} // verus!
