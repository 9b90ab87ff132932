//! Fuzzy mode: how each catalogue entry matches a query, and the scan over the catalogue.
use crate::entry::{ActionView, AppEntry, DesktopAction, EntryView};
use crate::matching::{fuzzy_accepts, fuzzy_match, skim_score};
use crate::rank::{
    calculate_bonus_score, bonus_score, lookup, result_views, History, HistoryEntry,
    ResultView, SearchResult, ACTION_PENALTY, BONUS_SCORE_BINARY, BONUS_SCORE_CATEGORY_MATCH,
    BONUS_SCORE_KEYWORD_MATCH, MAX_BONUS, MIN_BONUS,
};
use crate::text::{
    concat, contains_str, eq_ignore_ascii_case, lower_of, lowercase, occurs_in,
    same_ignoring_ascii_case, views,
};
use crate::usage::entry_views;
use vstd::prelude::*;

verus! {

/// Some string of `ws` equals `q` up to ASCII case.
pub open spec fn any_same(ws: Seq<Seq<char>>, q: Seq<char>) -> bool {
    exists|i: int| 0 <= i < ws.len() && same_ignoring_ascii_case(#[trigger] ws[i], q)
}

/// The name-tier match of an entry: exact name, exact keyword, exact category, then a fuzzy
/// match of the lower-cased name; the first that applies decides.
pub open spec fn primary_score(e: EntryView, q: Seq<char>) -> Option<int> {
    if same_ignoring_ascii_case(lower_of(e.name), lower_of(q)) {
        Some(BONUS_SCORE_BINARY as int)
    } else if any_same(e.keywords, q) {
        Some(BONUS_SCORE_KEYWORD_MATCH as int)
    } else if any_same(e.categories, q) {
        Some(BONUS_SCORE_CATEGORY_MATCH as int)
    } else if fuzzy_accepts(lower_of(e.name), q) {
        Some(skim_score(lower_of(e.name), q) as int)
    } else {
        None
    }
}

/// The fuzzy score of the first string of `ws` whose lower-cased form matches `q`.
pub open spec fn first_fuzzy(ws: Seq<Seq<char>>, q: Seq<char>) -> Option<int>
    decreases ws.len(),
{
    if ws.len() == 0 {
        None
    } else if fuzzy_accepts(lower_of(ws[0]), q) {
        Some(skim_score(lower_of(ws[0]), q) as int)
    } else {
        first_fuzzy(ws.drop_first(), q)
    }
}

/// The fallback match: keywords first, then categories; the first hit wins.
pub open spec fn fallback_score(e: EntryView, q: Seq<char>) -> Option<int> {
    match first_fuzzy(e.keywords, q) {
        Some(s) => Some(s),
        None => first_fuzzy(e.categories, q),
    }
}

/// Whether an action matches the query, on its "Entry - Action" label.
pub open spec fn action_matches(e: EntryView, a: ActionView, q: Seq<char>) -> bool {
    let label = lower_of(e.name + " - "@ + a.name);
    q.len() == 0 || occurs_in(lower_of(q), label) || fuzzy_accepts(label, q)
}

/// The entry an action is launched as: "Entry - Action", with the action's command and icon.
pub open spec fn action_entry(e: EntryView, a: ActionView) -> EntryView {
    EntryView {
        name: e.name + " - "@ + a.name,
        command: a.command,
        icon_name: match a.icon_name {
            Some(i) => i,
            None => e.icon_name,
        },
        ..e
    }
}

/// The results for the matching actions of `e`, in order, each a little below the bonus.
pub open spec fn action_results(e: EntryView, acts: Seq<ActionView>, q: Seq<char>, b: int) -> Seq<
    ResultView,
>
    decreases acts.len(),
{
    if acts.len() == 0 {
        Seq::empty()
    } else {
        action_results(e, acts.drop_last(), q, b) + if action_matches(e, acts.last(), q) {
            seq![ResultView { entry: action_entry(e, acts.last()), score: b - ACTION_PENALTY }]
        } else {
            Seq::empty()
        }
    }
}

/// Every result one entry contributes: its primary match, its matching actions, and the
/// fallback match when there was no primary one. All carry the entry's bonus `b`.
pub open spec fn entry_results(e: EntryView, q: Seq<char>, b: int, show_actions: bool) -> Seq<
    ResultView,
> {
    (match primary_score(e, q) {
        Some(s) => seq![ResultView { entry: e, score: s + b }],
        None => Seq::empty(),
    }) + (if show_actions {
        action_results(e, e.actions, q, b)
    } else {
        Seq::empty()
    }) + (if primary_score(e, q) is None {
        match fallback_score(e, q) {
            Some(s) => seq![ResultView { entry: e, score: s + b }],
            None => Seq::empty(),
        }
    } else {
        Seq::empty()
    })
}

/// An entry whose name equals the query up to case gets the exact-name tier: its first result
/// is the entry itself, scored the binary bonus above its own bonus, ahead of its actions.
pub proof fn lemma_exact_name_tier(e: EntryView, q: Seq<char>, b: int, show_actions: bool)
    requires
        same_ignoring_ascii_case(lower_of(e.name), lower_of(q)),
    ensures
        entry_results(e, q, b, show_actions).len() >= 1,
        entry_results(e, q, b, show_actions)[0] == (ResultView {
            entry: e,
            score: BONUS_SCORE_BINARY + b,
        }),
{
    let head = seq![ResultView { entry: e, score: BONUS_SCORE_BINARY + b }];
    let acts = if show_actions {
        action_results(e, e.actions, q, b)
    } else {
        Seq::empty()
    };
    assert(entry_results(e, q, b, show_actions) == head + acts + Seq::<ResultView>::empty());
    assert((head + acts + Seq::<ResultView>::empty())[0] == head[0]);
}

/// What the bonus of an entry depends on besides the entry.
pub ghost struct Scoring {
    pub history: Map<Seq<char>, HistoryEntry>,
    pub now: u64,
    pub windows: Seq<Seq<char>>,
}

pub open spec fn entry_bonus(e: EntryView, sc: Scoring) -> int {
    bonus_score(e, lookup(sc.history, e.name), sc.now, sc.windows)
}

/// The results of a scan of the catalogue, entry by entry in catalogue order.
pub open spec fn catalogue_matches(
    es: Seq<EntryView>,
    q: Seq<char>,
    sc: Scoring,
    show_actions: bool,
) -> Seq<ResultView>
    decreases es.len(),
{
    if es.len() == 0 {
        Seq::empty()
    } else {
        catalogue_matches(es.drop_last(), q, sc, show_actions) + entry_results(
            es.last(),
            q,
            entry_bonus(es.last(), sc),
            show_actions,
        )
    }
}

fn any_same_exec(ws: &Vec<String>, q: &str) -> (r: bool)
    ensures
        r == any_same(views(ws@), q@),
{
    let mut i: usize = 0;
    while i < ws.len()
        invariant
            i <= ws.len(),
            forall|j: int| 0 <= j < i ==> !same_ignoring_ascii_case(#[trigger] views(ws@)[j], q@),
        decreases ws.len() - i,
    {
        if eq_ignore_ascii_case(ws[i].as_str(), q) {
            assert(views(ws@)[i as int] == ws@[i as int]@);
            return true;
        }
        i += 1;
    }
    false
}

fn first_fuzzy_exec(ws: &Vec<String>, q: &str) -> (r: Option<i64>)
    ensures
        match first_fuzzy(views(ws@), q@) {
            Some(s) => r == Some(s as i64) && i32::MIN <= s <= i32::MAX,
            None => r is None,
        },
{
    let mut i: usize = 0;
    assert(views(ws@).subrange(0, ws.len() as int) =~= views(ws@));
    while i < ws.len()
        invariant
            i <= ws.len(),
            first_fuzzy(views(ws@), q@) == first_fuzzy(views(ws@).subrange(i as int, ws.len() as int), q@),
        decreases ws.len() - i,
    {
        let ghost rest = views(ws@).subrange(i as int, ws.len() as int);
        assert(rest[0] == ws@[i as int]@);
        assert(rest.drop_first() =~= views(ws@).subrange(i + 1, ws.len() as int));
        let w = lowercase(ws[i].as_str());
        match fuzzy_match(w.as_str(), q) {
            Some(s) => {
                return Some(s);
            },
            None => {},
        }
        i += 1;
    }
    None
}

fn primary_exec(app: &AppEntry, query: &str, query_lower: &str) -> (r: Option<i64>)
    requires
        query_lower@ == lower_of(query@),
    ensures
        match primary_score(app@, query@) {
            Some(s) => r == Some(s as i64) && i32::MIN <= s <= i32::MAX,
            None => r is None,
        },
{
    let name_lower = lowercase(app.name.as_str());
    if eq_ignore_ascii_case(name_lower.as_str(), query_lower) {
        Some(BONUS_SCORE_BINARY)
    } else if any_same_exec(&app.keywords, query) {
        Some(BONUS_SCORE_KEYWORD_MATCH)
    } else if any_same_exec(&app.categories, query) {
        Some(BONUS_SCORE_CATEGORY_MATCH)
    } else {
        fuzzy_match(name_lower.as_str(), query)
    }
}

fn action_result(app: &AppEntry, action: &DesktopAction, bonus: i64) -> (r: SearchResult)
    requires
        MIN_BONUS <= bonus <= MAX_BONUS,
    ensures
        r@ == (ResultView { entry: action_entry(app@, action@), score: bonus - ACTION_PENALTY }),
{
    let mut e = app.duplicate();
    e.name = concat(concat(app.name.as_str(), " - ").as_str(), action.name.as_str());
    e.command = action.command.clone();
    match &action.icon_name {
        Some(icon) => {
            e.icon_name = icon.clone();
        },
        None => {},
    }
    SearchResult { app: e, score: bonus - ACTION_PENALTY }
}

/// The results one entry contributes to a fuzzy query (see `entry_results`).
pub fn entry_matches(
    app: &AppEntry,
    query: &str,
    query_lower: &str,
    bonus: i64,
    show_actions: bool,
) -> (r: Vec<SearchResult>)
    requires
        query_lower@ == lower_of(query@),
        MIN_BONUS <= bonus <= MAX_BONUS,
    ensures
        result_views(r@) == entry_results(app@, query@, bonus as int, show_actions),
{
    let mut out: Vec<SearchResult> = Vec::new();
    let primary = primary_exec(app, query, query_lower);
    match primary {
        Some(s) => {
            out.push(SearchResult { app: app.duplicate(), score: s + bonus });
        },
        None => {},
    }
    let ghost head = result_views(out@);
    if show_actions {
        let mut k: usize = 0;
        while k < app.actions.len()
            invariant
                k <= app.actions.len(),
                MIN_BONUS <= bonus <= MAX_BONUS,
                query_lower@ == lower_of(query@),
                result_views(out@) == head + action_results(
                    app@,
                    app@.actions.subrange(0, k as int),
                    query@,
                    bonus as int,
                ),
            decreases app.actions.len() - k,
        {
            let action = &app.actions[k];
            assert(app@.actions.subrange(0, k + 1).drop_last() =~= app@.actions.subrange(0, k as int));
            let label = concat(concat(app.name.as_str(), " - ").as_str(), action.name.as_str());
            let action_lower = lowercase(label.as_str());
            let hit = query.is_empty() || contains_str(action_lower.as_str(), query_lower)
                || fuzzy_match(action_lower.as_str(), query).is_some();
            if hit {
                let x = action_result(app, action, bonus);
                let ghost before = result_views(out@);
                out.push(x);
                assert(result_views(out@) =~= before.push(x@));
            }
            let ghost sub = app@.actions.subrange(0, k + 1);
            assert(sub.last() == action@);
            k += 1;
        }
        assert(app@.actions.subrange(0, app.actions.len() as int) =~= app@.actions);
    }
    let ghost mid = result_views(out@);
    if primary.is_none() {
        let fb = match first_fuzzy_exec(&app.keywords, query) {
            Some(s) => Some(s),
            None => first_fuzzy_exec(&app.categories, query),
        };
        match fb {
            Some(s) => {
                out.push(SearchResult { app: app.duplicate(), score: s + bonus });
            },
            None => {},
        }
    }
    assert(result_views(out@) =~= entry_results(app@, query@, bonus as int, show_actions));
    out
}

/// Scans the catalogue for a non-browse query: each entry's results in catalogue order.
pub fn match_catalogue(
    entries: &Vec<AppEntry>,
    query: &str,
    history: &History,
    now: u64,
    windows: &Vec<String>,
    show_actions: bool,
) -> (r: Vec<SearchResult>)
    requires
        history.wf(),
    ensures
        result_views(r@) == catalogue_matches(
            entry_views(entries@),
            query@,
            Scoring { history: history.view(), now, windows: views(windows@) },
            show_actions,
        ),
{
    let ghost sc = Scoring { history: history.view(), now, windows: views(windows@) };
    let query_lower = lowercase(query);
    let mut out: Vec<SearchResult> = Vec::new();
    let mut i: usize = 0;
    while i < entries.len()
        invariant
            i <= entries.len(),
            history.wf(),
            query_lower@ == lower_of(query@),
            sc == (Scoring { history: history.view(), now, windows: views(windows@) }),
            result_views(out@) == catalogue_matches(
                entry_views(entries@).subrange(0, i as int),
                query@,
                sc,
                show_actions,
            ),
        decreases entries.len() - i,
    {
        let app = &entries[i];
        let ghost pre = entry_views(entries@).subrange(0, i as int);
        let ghost next = entry_views(entries@).subrange(0, i + 1);
        assert(next.drop_last() =~= pre);
        assert(next.last() == app@);
        let bonus = calculate_bonus_score(app, history, now, windows);
        let found = entry_matches(app, query, query_lower.as_str(), bonus, show_actions);
        let ghost before = result_views(out@);
        let mut j: usize = 0;
        while j < found.len()
            invariant
                j <= found.len(),
                result_views(out@) == before + result_views(found@).subrange(0, j as int),
            decreases found.len() - j,
        {
            let ghost b2 = result_views(out@);
            out.push(found[j].duplicate());
            assert(result_views(out@) =~= b2.push(found@[j as int]@));
            assert(result_views(found@).subrange(0, j + 1) =~= result_views(found@).subrange(0, j as int).push(found@[j as int]@));
            j += 1;
        }
        assert(result_views(found@).subrange(0, found.len() as int) =~= result_views(found@));
        i += 1;
    }
    assert(entry_views(entries@).subrange(0, entries.len() as int) =~= entry_views(entries@));
    out
}

/// Every catalogue entry whose name equals the query up to case is listed by the scan with the
/// exact-name tier: the entry itself, scored the binary bonus above its own bonus.
pub proof fn lemma_exact_match_listed(es: Seq<EntryView>, q: Seq<char>, sc: Scoring, show: bool, i: int)
    requires
        0 <= i < es.len(),
        same_ignoring_ascii_case(lower_of(es[i].name), lower_of(q)),
    ensures
        catalogue_matches(es, q, sc, show).contains(
            ResultView { entry: es[i], score: BONUS_SCORE_BINARY + entry_bonus(es[i], sc) },
        ),
    decreases es.len(),
{
    let pre = es.drop_last();
    let x = ResultView { entry: es[i], score: BONUS_SCORE_BINARY + entry_bonus(es[i], sc) };
    if i == es.len() - 1 {
        let e = es.last();
        lemma_exact_name_tier(e, q, entry_bonus(e, sc), show);
        let m = catalogue_matches(pre, q, sc, show);
        let all = catalogue_matches(es, q, sc, show);
        assert(all[m.len() as int] == x);
    } else {
        assert(pre[i] == es[i]);
        lemma_exact_match_listed(pre, q, sc, show, i);
        let m = catalogue_matches(pre, q, sc, show);
        let k = choose|k: int| 0 <= k < m.len() && m[k] == x;
        assert(catalogue_matches(es, q, sc, show)[k] == x);
    }
}

} // verus!
