//! The query router and the search modes: browse, fuzzy (with its fallbacks) and dmenu.
use crate::config::{Config, WebSearch};
use crate::entry::{ActionView, AppEntry, EntryType, EntryView};
use crate::fuzzy::{action_results, catalogue_matches, entry_bonus, match_catalogue, Scoring};
use crate::matching::{fuzzy_accepts, fuzzy_match, skim_score};
use crate::rank::{
    calculate_bonus_score, is_excluded_query, lemma_sorted_by_is_sorted, lemma_sorted_members,
    result_views, should_exclude_web_search, sort_results, sorted_by, before,
    History, Order, ResultView, SearchResult, BONUS_SCORE_BINARY, BONUS_SCORE_CALC,
    BONUS_SCORE_WEB_SEARCH,
};
use crate::synthetic::{
    binary_entry, calc_entry, calc_text, check_binary, create_calc_entry, create_web_search_entry,
    handle_calculation, web_entry,
};
use crate::text::{
    chars_of, ends_with_str, eq_ignore_ascii_case, lex_lt, lower_of, lowercase, owned, pieces,
    same_ignoring_ascii_case, str_eq, views,
};
use crate::usage::{entry_views, Catalogue};
use crate::path::{path_results, search_path, Listing};
use crate::text::opt_view;
use vstd::prelude::*;

verus! {

/// The first `n` elements, or all when there are fewer.
pub open spec fn truncated<A>(s: Seq<A>, n: nat) -> Seq<A> {
    if s.len() > n {
        s.subrange(0, n as int)
    } else {
        s
    }
}

/// Some catalogue entry's name equals the query, up to case.
pub open spec fn has_exact_name(es: Seq<EntryView>, q: Seq<char>) -> bool {
    exists|i: int|
        0 <= i < es.len() && same_ignoring_ascii_case(lower_of(#[trigger] es[i].name), lower_of(q))
}

pub open spec fn starts_with_digit(q: Seq<char>) -> bool {
    q.len() > 0 && '0' <= q[0] && q[0] <= '9'
}

/// Some result is in the "Web Search" category.
pub open spec fn has_web_category(rs: Seq<ResultView>) -> bool {
    exists|i: int, j: int|
        0 <= i < rs.len() && 0 <= j < rs[i].entry.categories.len() && #[trigger] rs[i].entry.categories[j]
            == "Web Search"@
}

/// The settings fuzzy mode reads besides the query and the catalogue.
pub ghost struct FuzzyOptions {
    pub show_actions: bool,
    pub binary_found: bool,
    pub calculator: bool,
    pub web: WebSearch,
    pub max: nat,
}

/// The matches with the binary entry added when no entry is named like the query and the
/// query's first word names an executable.
pub open spec fn with_binary(
    m: Seq<ResultView>,
    es: Seq<EntryView>,
    q: Seq<char>,
    found: bool,
    now: u64,
) -> Seq<ResultView> {
    if !has_exact_name(es, q) && found && pieces(q, None).len() > 0 {
        m.push(ResultView { entry: binary_entry(q, now), score: BONUS_SCORE_BINARY as int })
    } else {
        m
    }
}

/// The results with the calculator entry added when there are none, the calculator is on and
/// the query starts with a digit.
pub open spec fn with_calc(m: Seq<ResultView>, q: Seq<char>, on: bool, text: Seq<char>, now: u64) -> Seq<
    ResultView,
> {
    if m.len() == 0 && on && starts_with_digit(q) {
        m.push(ResultView { entry: calc_entry(text, now), score: BONUS_SCORE_CALC as int })
    } else {
        m
    }
}

/// Whether a web-search entry is appended to `rs` for the query.
pub open spec fn wants_web(rs: Seq<ResultView>, q: Seq<char>, web: WebSearch) -> bool {
    web.enabled && q.len() > 0 && !is_excluded_query(q) && !has_web_category(rs)
}

/// The results with the web-search entry appended, re-sorted and cut to `max`.
pub open spec fn with_web(rs: Seq<ResultView>, q: Seq<char>, web: WebSearch, now: u64, max: nat) -> Seq<
    ResultView,
> {
    if wants_web(rs, q, web) {
        truncated(
            sorted_by(
                rs.push(
                    ResultView { entry: web_entry(q, web, now), score: BONUS_SCORE_WEB_SEARCH as int },
                ),
                Order::ByScoreThenName,
            ),
            max,
        )
    } else {
        rs
    }
}

/// Fuzzy mode: catalogue matches, then the binary, calculator and web-search fallbacks, sorted
/// by score, ties by case-insensitive name, and cut to the limit. `calc` is the calculator's
/// text for the query.
pub open spec fn fuzzy_results(
    es: Seq<EntryView>,
    q: Seq<char>,
    sc: Scoring,
    o: FuzzyOptions,
    calc: Seq<char>,
) -> Seq<ResultView> {
    let m = catalogue_matches(es, q, sc, o.show_actions);
    let m1 = with_binary(m, es, q, o.binary_found, sc.now);
    let m2 = with_calc(m1, q, o.calculator, calc, sc.now);
    with_web(truncated(sorted_by(m2, Order::ByScoreThenName), o.max), q, o.web, sc.now, o.max)
}

fn exact_name_exists(entries: &Vec<AppEntry>, query: &str) -> (r: bool)
    ensures
        r == has_exact_name(entry_views(entries@), query@),
{
    let ql = lowercase(query);
    let mut i: usize = 0;
    while i < entries.len()
        invariant
            i <= entries.len(),
            ql@ == lower_of(query@),
            forall|j: int|
                0 <= j < i ==> !same_ignoring_ascii_case(
                    lower_of(#[trigger] entry_views(entries@)[j].name),
                    lower_of(query@),
                ),
        decreases entries.len() - i,
    {
        let nl = lowercase(entries[i].name.as_str());
        if eq_ignore_ascii_case(nl.as_str(), ql.as_str()) {
            assert(entry_views(entries@)[i as int].name == entries@[i as int].name@);
            return true;
        }
        i += 1;
    }
    false
}

fn web_category_present(rs: &Vec<SearchResult>) -> (r: bool)
    ensures
        r == has_web_category(result_views(rs@)),
{
    let mut i: usize = 0;
    while i < rs.len()
        invariant
            i <= rs.len(),
            forall|a: int, b: int|
                0 <= a < i && 0 <= b < result_views(rs@)[a].entry.categories.len() ==> #[trigger] result_views(
                    rs@,
                )[a].entry.categories[b] != "Web Search"@,
        decreases rs.len() - i,
    {
        let cats = &rs[i].app.categories;
        let mut j: usize = 0;
        while j < cats.len()
            invariant
                j <= cats.len(),
                cats == &rs@[i as int].app.categories,
                i < rs.len(),
                forall|a: int, b: int|
                    0 <= a < i && 0 <= b < result_views(rs@)[a].entry.categories.len() ==> #[trigger] result_views(
                        rs@,
                    )[a].entry.categories[b] != "Web Search"@,
                forall|b: int| 0 <= b < j ==> views(cats@)[b] != "Web Search"@,
            decreases cats.len() - j,
        {
            if str_eq(cats[j].as_str(), "Web Search") {
                assert(result_views(rs@)[i as int].entry.categories[j as int] == "Web Search"@);
                return true;
            }
            j += 1;
        }
        assert forall|a: int, b: int|
            0 <= a < i + 1 && 0 <= b < result_views(rs@)[a].entry.categories.len() implies #[trigger] result_views(
                rs@,
            )[a].entry.categories[b] != "Web Search"@ by {
            if a == i {
                assert(result_views(rs@)[a].entry.categories[b] == views(cats@)[b]);
            }
        }
        i += 1;
    }
    false
}

fn truncate_results(v: &mut Vec<SearchResult>, max: usize)
    ensures
        result_views(final(v)@) == truncated(result_views(old(v)@), max as nat),
{
    let ghost before = result_views(v@);
    v.truncate(max);
    proof {
        if before.len() > max {
            assert(result_views(v@) =~= before.subrange(0, max as int));
        } else {
            assert(result_views(v@) =~= before);
        }
    }
}

/// Appends the web-search entry when `wants_web` says so, then re-sorts and cuts to `max`.
pub fn append_web_search(
    results: Vec<SearchResult>,
    query: &str,
    web: &WebSearch,
    now: u64,
    max: usize,
) -> (r: Vec<SearchResult>)
    ensures
        result_views(r@) == with_web(result_views(results@), query@, *web, now, max as nat),
{
    if web.enabled && !query.is_empty() && !should_exclude_web_search(query)
        && !web_category_present(&results) {
        let mut rs = results;
        let ghost before = result_views(rs@);
        let w = create_web_search_entry(query, web, now);
        rs.push(w);
        assert(result_views(rs@) =~= before.push(w@));
        let mut sorted = sort_results(rs, Order::ByScoreThenName);
        truncate_results(&mut sorted, max);
        sorted
    } else {
        results
    }
}

/// What the query probes found: the clock, the open windows' classes, whether the
/// query's first word names an executable, and the directory listing for path mode.
pub struct Probes {
    pub now: u64,
    pub windows: Vec<String>,
    pub binary_found: bool,
    pub listing: Option<Listing>,
}

/// Fuzzy mode over the catalogue (see `fuzzy_results`); the calculator is asked only when
/// its entry would be added, and whatever text it gives is shown.
pub fn search_fuzzy(
    query: &str,
    catalogue: &Catalogue,
    history: &History,
    probes: &Probes,
    config: &Config,
) -> (r: Vec<SearchResult>)
    requires
        history.wf(),
    ensures
        exists|res: Result<String, String>|
            result_views(r@) == fuzzy_results(
                catalogue.view(),
                query@,
                Scoring { history: history.view(), now: probes.now, windows: views(probes.windows@) },
                FuzzyOptions {
                    show_actions: config.window.show_actions,
                    binary_found: probes.binary_found,
                    calculator: config.modes.calculator,
                    web: config.web_search,
                    max: config.window.max_entries as nat,
                },
                calc_text(res),
            ),
        !(config.modes.calculator && starts_with_digit(query@)) ==> result_views(r@)
            == fuzzy_results(
            catalogue.view(),
            query@,
            Scoring { history: history.view(), now: probes.now, windows: views(probes.windows@) },
            FuzzyOptions {
                show_actions: config.window.show_actions,
                binary_found: probes.binary_found,
                calculator: config.modes.calculator,
                web: config.web_search,
                max: config.window.max_entries as nat,
            },
            Seq::empty(),
        ),
{
    let entries = catalogue.entries();
    let now = probes.now;
    let max = config.window.max_entries;
    let mut m = match_catalogue(
        entries,
        query,
        history,
        now,
        &probes.windows,
        config.window.show_actions,
    );
    let ghost m0 = result_views(m@);
    if !exact_name_exists(entries, query) {
        match check_binary(query, probes.binary_found, now) {
            Some(b) => {
                m.push(b);
                assert(result_views(m@) =~= m0.push(b@));
            },
            None => {},
        }
    }
    let ghost m1 = result_views(m@);
    let vq = chars_of(query);
    let digit = vq.len() > 0 && '0' <= vq[0] && vq[0] <= '9';
    let mut calc = String::new();
    let ghost mut outcome: Result<String, String> = Ok(calc);
    if m.len() == 0 && config.modes.calculator && digit {
        calc = handle_calculation(query);
        proof {
            outcome = choose|res: Result<String, String>| calc@ == calc_text(res);
        }
        let c = create_calc_entry(calc.as_str(), now);
        m.push(c);
        assert(result_views(m@) =~= m1.push(c@));
    }
    let mut sorted = sort_results(m, Order::ByScoreThenName);
    truncate_results(&mut sorted, max);
    let r = append_web_search(sorted, query, &config.web_search, now, max);
    assert(result_views(r@) == fuzzy_results(
        catalogue.view(),
        query@,
        Scoring { history: history.view(), now: probes.now, windows: views(probes.windows@) },
        FuzzyOptions {
            show_actions: config.window.show_actions,
            binary_found: probes.binary_found,
            calculator: config.modes.calculator,
            web: config.web_search,
            max: config.window.max_entries as nat,
        },
        calc_text(outcome),
    ));
    r
}

/// Whether an entry is an application from an installed descriptor file.
pub open spec fn is_installed_app(e: EntryView) -> bool {
    e.entry_type == EntryType::Application && ".desktop"@.is_suffix_of(e.path)
}

/// Browse candidates with a usage record, in catalogue order, scored by their bonus.
pub open spec fn browse_known(es: Seq<EntryView>, sc: Scoring) -> Seq<ResultView>
    decreases es.len(),
{
    if es.len() == 0 {
        Seq::empty()
    } else {
        browse_known(es.drop_last(), sc) + if is_installed_app(es.last()) && sc.history.contains_key(
            es.last().name,
        ) {
            seq![ResultView { entry: es.last(), score: entry_bonus(es.last(), sc) }]
        } else {
            Seq::empty()
        }
    }
}

/// Browse candidates without a usage record, in catalogue order.
pub open spec fn browse_unknown(es: Seq<EntryView>, sc: Scoring) -> Seq<ResultView>
    decreases es.len(),
{
    if es.len() == 0 {
        Seq::empty()
    } else {
        browse_unknown(es.drop_last(), sc) + if is_installed_app(es.last())
            && !sc.history.contains_key(es.last().name) {
            seq![ResultView { entry: es.last(), score: entry_bonus(es.last(), sc) }]
        } else {
            Seq::empty()
        }
    }
}

/// Browse mode: used entries by score, then the others alphabetically, cut to `max`.
pub open spec fn browse_results(es: Seq<EntryView>, sc: Scoring, max: nat) -> Seq<ResultView> {
    truncated(
        sorted_by(browse_known(es, sc), Order::ByScore) + sorted_by(
            browse_unknown(es, sc),
            Order::ByName,
        ),
        max,
    )
}

/// Browse mode: every installed application, the used ones first (see `browse_results`).
pub fn search_browse(
    catalogue: &Catalogue,
    history: &History,
    now: u64,
    windows: &Vec<String>,
    max: usize,
) -> (r: Vec<SearchResult>)
    requires
        history.wf(),
    ensures
        result_views(r@) == browse_results(
            catalogue.view(),
            Scoring { history: history.view(), now, windows: views(windows@) },
            max as nat,
        ),
{
    let ghost sc = Scoring { history: history.view(), now, windows: views(windows@) };
    let entries = catalogue.entries();
    let mut known: Vec<SearchResult> = Vec::new();
    let mut unknown: Vec<SearchResult> = Vec::new();
    let mut i: usize = 0;
    while i < entries.len()
        invariant
            i <= entries.len(),
            history.wf(),
            sc == (Scoring { history: history.view(), now, windows: views(windows@) }),
            entry_views(entries@) == catalogue.view(),
            result_views(known@) == browse_known(entry_views(entries@).subrange(0, i as int), sc),
            result_views(unknown@) == browse_unknown(
                entry_views(entries@).subrange(0, i as int),
                sc,
            ),
        decreases entries.len() - i,
    {
        let app = &entries[i];
        let ghost pre = entry_views(entries@).subrange(0, i as int);
        let ghost next = entry_views(entries@).subrange(0, i + 1);
        assert(next.drop_last() =~= pre);
        assert(next.last() == app@);
        if app.entry_type == EntryType::Application && ends_with_str(app.path.as_str(), ".desktop") {
            let score = calculate_bonus_score(app, history, now, windows);
            let x = SearchResult { app: app.duplicate(), score };
            let recorded = history.get(app.name.as_str()).is_some();
            if recorded {
                let ghost b = result_views(known@);
                known.push(x);
                assert(result_views(known@) =~= b.push(x@));
                assert(result_views(unknown@) =~= browse_unknown(next, sc));
            } else {
                let ghost b = result_views(unknown@);
                unknown.push(x);
                assert(result_views(unknown@) =~= b.push(x@));
                assert(result_views(known@) =~= browse_known(next, sc));
            }
        } else {
            assert(result_views(known@) =~= browse_known(next, sc));
            assert(result_views(unknown@) =~= browse_unknown(next, sc));
        }
        i += 1;
    }
    assert(entry_views(entries@).subrange(0, entries.len() as int) =~= entry_views(entries@));
    let mut out = sort_results(known, Order::ByScore);
    let mut tail = sort_results(unknown, Order::ByName);
    let ghost a = result_views(out@);
    let ghost b = result_views(tail@);
    out.append(&mut tail);
    assert(result_views(out@) =~= a + b);
    truncate_results(&mut out, max);
    out
}

proof fn lemma_known_members(es: Seq<EntryView>, sc: Scoring)
    ensures
        forall|i: int|
            0 <= i < browse_known(es, sc).len() ==> sc.history.contains_key(
                #[trigger] browse_known(es, sc)[i].entry.name,
            ),
        forall|i: int|
            0 <= i < browse_unknown(es, sc).len() ==> !sc.history.contains_key(
                #[trigger] browse_unknown(es, sc)[i].entry.name,
            ),
    decreases es.len(),
{
    if es.len() > 0 {
        lemma_known_members(es.drop_last(), sc);
    }
}

/// Browse mode lists every used entry ahead of every unused one; the used ones come by score,
/// highest first, and the unused ones alphabetically without regard to case.
pub proof fn lemma_browse_order(es: Seq<EntryView>, sc: Scoring, max: nat)
    ensures
        ({
            let r = browse_results(es, sc, max);
            let k = browse_known(es, sc).len();
            &&& forall|i: int| 0 <= i < r.len() && i < k ==> sc.history.contains_key(#[trigger] r[i].entry.name)
            &&& forall|i: int| k <= i < r.len() ==> !sc.history.contains_key(#[trigger] r[i].entry.name)
            &&& forall|i: int, j: int| 0 <= i < j < r.len() && j < k ==> r[i].score >= r[j].score
            &&& forall|i: int, j: int|
                k <= i < j < r.len() ==> !lex_lt(lower_of(r[j].entry.name), lower_of(r[i].entry.name))
        }),
{
    let kn = browse_known(es, sc);
    let un = browse_unknown(es, sc);
    let a = sorted_by(kn, Order::ByScore);
    let b = sorted_by(un, Order::ByName);
    let r = browse_results(es, sc, max);
    lemma_known_members(es, sc);
    lemma_sorted_members(kn, Order::ByScore);
    lemma_sorted_members(un, Order::ByName);
    lemma_sorted_by_is_sorted(kn, Order::ByScore);
    lemma_sorted_by_is_sorted(un, Order::ByName);
    let k = kn.len();
    assert forall|i: int| 0 <= i < r.len() && i < k implies sc.history.contains_key(#[trigger] r[i].entry.name) by {
        assert(r[i] == a[i]);
        let m = choose|m: int| 0 <= m < kn.len() && kn[m] == a[i];
    }
    assert forall|i: int| k <= i < r.len() implies !sc.history.contains_key(#[trigger] r[i].entry.name) by {
        assert(r[i] == b[i - k]);
        let m = choose|m: int| 0 <= m < un.len() && un[m] == b[i - k];
    }
    assert forall|i: int, j: int| 0 <= i < j < r.len() && j < k implies r[i].score >= r[j].score by {
        assert(r[i] == a[i] && r[j] == a[j]);
        assert(!before(Order::ByScore, a[j], a[i]));
    }
    assert forall|i: int, j: int| k <= i < j < r.len() implies !lex_lt(lower_of(r[j].entry.name), lower_of(r[i].entry.name)) by {
        assert(r[i] == b[i - k] && r[j] == b[j - k]);
        assert(!before(Order::ByName, b[j - k], b[i - k]));
    }
}

/// A dmenu line as a result: only its text is set.
pub open spec fn line_entry(line: Seq<char>) -> EntryView {
    EntryView {
        name: line,
        description: Seq::empty(),
        path: Seq::empty(),
        command: Seq::empty(),
        icon_name: Seq::empty(),
        launch_count: 0,
        last_used: None,
        entry_type: EntryType::Application,
        score_boost: 0,
        keywords: Seq::empty(),
        categories: Seq::empty(),
        terminal: false,
        actions: Seq::empty(),
    }
}

/// The lines that match the query, in input order, with their fuzzy scores.
pub open spec fn dmenu_matches(lines: Seq<Seq<char>>, q: Seq<char>, case_sensitive: bool) -> Seq<
    ResultView,
>
    decreases lines.len(),
{
    if lines.len() == 0 {
        Seq::empty()
    } else {
        let line = lines.last();
        let c = if case_sensitive {
            line
        } else {
            lower_of(line)
        };
        dmenu_matches(lines.drop_last(), q, case_sensitive) + if fuzzy_accepts(c, q) {
            seq![ResultView { entry: line_entry(line), score: skim_score(c, q) as int }]
        } else {
            Seq::empty()
        }
    }
}

/// Dmenu mode: the matching lines by fuzzy score, cut to `max`; with none, the query itself, as
/// typed, when free-form input is allowed.
pub open spec fn dmenu_results(
    q: Seq<char>,
    lines: Seq<Seq<char>>,
    case_sensitive: bool,
    allow_invalid: bool,
    max: nat,
) -> Seq<Seq<char>> {
    let qq = if case_sensitive {
        q
    } else {
        lower_of(q)
    };
    let m = dmenu_matches(lines, qq, case_sensitive);
    let m2 = if m.len() == 0 && allow_invalid {
        seq![ResultView { entry: line_entry(q), score: 0 }]
    } else {
        m
    };
    truncated(sorted_by(m2, Order::ByScore), max).map_values(|r: ResultView| r.entry.name)
}

fn line_result(line: &str, score: i64) -> (r: SearchResult)
    ensures
        r@ == (ResultView { entry: line_entry(line@), score: score as int }),
{
    let app = AppEntry {
        name: owned(line),
        description: String::new(),
        path: String::new(),
        command: String::new(),
        icon_name: String::new(),
        launch_count: 0,
        last_used: None,
        entry_type: EntryType::Application,
        score_boost: 0,
        keywords: Vec::new(),
        categories: Vec::new(),
        terminal: false,
        actions: Vec::new(),
    };
    assert(app@.keywords =~= Seq::<Seq<char>>::empty());
    assert(app@.categories =~= Seq::<Seq<char>>::empty());
    assert(app@.actions =~= Seq::<crate::entry::ActionView>::empty());
    let r = SearchResult { app, score };
    assert(r@.entry == line_entry(line@));
    r
}

/// Filters caller-supplied lines by the query (see `dmenu_results`).
pub fn search_dmenu(query: String, lines: Vec<String>, config: Config) -> (r: Vec<String>)
    ensures
        views(r@) == dmenu_results(
            query@,
            views(lines@),
            config.dmenu.case_sensitive,
            config.dmenu.allow_invalid,
            config.window.max_entries as nat,
        ),
        r@.len() <= config.window.max_entries,
{
    let cs = config.dmenu.case_sensitive;
    let q = if cs {
        query.clone()
    } else {
        lowercase(query.as_str())
    };
    let mut m: Vec<SearchResult> = Vec::new();
    let mut i: usize = 0;
    while i < lines.len()
        invariant
            i <= lines.len(),
            result_views(m@) == dmenu_matches(views(lines@).subrange(0, i as int), q@, cs),
        decreases lines.len() - i,
    {
        let line = &lines[i];
        assert(views(lines@).subrange(0, i + 1).drop_last() =~= views(lines@).subrange(0, i as int));
        assert(views(lines@).subrange(0, i + 1).last() == line@);
        let compare = if cs {
            line.clone()
        } else {
            lowercase(line.as_str())
        };
        match fuzzy_match(compare.as_str(), q.as_str()) {
            Some(score) => {
                let x = line_result(line.as_str(), score);
                let ghost b = result_views(m@);
                m.push(x);
                assert(result_views(m@) =~= b.push(x@));
            },
            None => {},
        }
        i += 1;
    }
    assert(views(lines@).subrange(0, lines.len() as int) =~= views(lines@));
    if m.len() == 0 && config.dmenu.allow_invalid {
        let x = line_result(query.as_str(), 0);
        m.push(x);
        assert(result_views(m@) =~= seq![x@]);
    }
    let mut sorted = sort_results(m, Order::ByScore);
    truncate_results(&mut sorted, config.window.max_entries);
    let mut out: Vec<String> = Vec::new();
    let mut k: usize = 0;
    while k < sorted.len()
        invariant
            k <= sorted.len(),
            views(out@) == result_views(sorted@).subrange(0, k as int).map_values(
                |r: ResultView| r.entry.name,
            ),
        decreases sorted.len() - k,
    {
        let ghost b = views(out@);
        out.push(sorted[k].app.name.clone());
        assert(views(out@) =~= b.push(sorted@[k as int].app.name@));
        assert(result_views(sorted@).subrange(0, k + 1).map_values(|r: ResultView| r.entry.name) =~= result_views(sorted@).subrange(0, k as int).map_values(|r: ResultView| r.entry.name).push(sorted@[k as int]@.entry.name));
        k += 1;
    }
    assert(result_views(sorted@).subrange(0, sorted.len() as int) =~= result_views(sorted@));
    out
}

/// The search mode a query selects.
#[derive(Clone, Copy, Debug, PartialEq, Eq, Structural)]
pub enum QueryMode {
    /// The empty query.
    Browse,
    /// A query starting with `~`, `$` or `/`.
    Path,
    /// Anything else.
    Fuzzy,
}

pub open spec fn mode_of(q: Seq<char>) -> QueryMode {
    if q.len() == 0 {
        QueryMode::Browse
    } else if q[0] == '~' || q[0] == '$' || q[0] == '/' {
        QueryMode::Path
    } else {
        QueryMode::Fuzzy
    }
}

/// The mode a query is searched in, from its first character.
pub fn classify_query(query: &str) -> (r: QueryMode)
    ensures
        r == mode_of(query@),
{
    let v = chars_of(query);
    if v.len() == 0 {
        QueryMode::Browse
    } else if v[0] == '~' || v[0] == '$' || v[0] == '/' {
        QueryMode::Path
    } else {
        QueryMode::Fuzzy
    }
}

pub open spec fn scoring_of(history: &History, probes: &Probes) -> Scoring {
    Scoring { history: history.view(), now: probes.now, windows: views(probes.windows@) }
}

pub open spec fn options_of(config: &Config, probes: &Probes) -> FuzzyOptions {
    FuzzyOptions {
        show_actions: config.window.show_actions,
        binary_found: probes.binary_found,
        calculator: config.modes.calculator,
        web: config.web_search,
        max: config.window.max_entries as nat,
    }
}

/// A length bound every fuzzy-mode result list meets.
pub proof fn lemma_fuzzy_len(es: Seq<EntryView>, q: Seq<char>, sc: Scoring, o: FuzzyOptions, calc: Seq<char>)
    ensures
        fuzzy_results(es, q, sc, o, calc).len() <= o.max,
{
}

/// Searches the catalogue: the query's first character picks browse, path or fuzzy mode, and
/// no mode returns more than `max_entries` results.
pub fn search_applications(
    query: &str,
    config: &Config,
    catalogue: &Catalogue,
    history: &History,
    probes: &Probes,
) -> (r: Vec<SearchResult>)
    requires
        history.wf(),
    ensures
        r@.len() <= config.window.max_entries,
        mode_of(query@) == QueryMode::Browse ==> result_views(r@) == browse_results(
            catalogue.view(),
            scoring_of(history, probes),
            config.window.max_entries as nat,
        ),
        mode_of(query@) == QueryMode::Path ==> match probes.listing {
            Some(l) => result_views(r@) == path_results(
                l.plan.dir@,
                opt_view(l.plan.filter),
                opt_view(l.plan.parent),
                l.items@,
                config.modes.show_hidden,
                config.window.max_entries as nat,
            ),
            None => r@.len() == 0,
        },
        mode_of(query@) == QueryMode::Fuzzy ==> exists|res: Result<String, String>|
            result_views(r@) == fuzzy_results(
                catalogue.view(),
                query@,
                scoring_of(history, probes),
                options_of(config, probes),
                calc_text(res),
            ),
{
    let max = config.window.max_entries;
    match classify_query(query) {
        QueryMode::Browse => {
            let r = search_browse(catalogue, history, probes.now, &probes.windows, max);
            assert(r@.len() == result_views(r@).len());
            r
        },
        QueryMode::Path => match &probes.listing {
            Some(l) => search_path(l, config.modes.show_hidden, max),
            None => Vec::new(),
        },
        QueryMode::Fuzzy => {
            let r = search_fuzzy(query, catalogue, history, probes, config);
            proof {
                let res = choose|res: Result<String, String>| result_views(r@) == fuzzy_results(
                    catalogue.view(),
                    query@,
                    scoring_of(history, probes),
                    options_of(config, probes),
                    calc_text(res),
                );
                lemma_fuzzy_len(catalogue.view(), query@, scoring_of(history, probes), options_of(config, probes), calc_text(res));
                assert(r@.len() == result_views(r@).len());
            }
            r
        },
    }
}

/// With web search on, a query that is no control token and that no catalogue entry, binary
/// or calculation answers yields exactly one result: the web-search entry, with a negative score.
pub proof fn lemma_web_fallback_alone(
    es: Seq<EntryView>,
    q: Seq<char>,
    sc: Scoring,
    o: FuzzyOptions,
    calc: Seq<char>,
)
    requires
        o.web.enabled,
        q.len() > 0,
        !is_excluded_query(q),
        catalogue_matches(es, q, sc, o.show_actions).len() == 0,
        !o.binary_found,
        !(o.calculator && starts_with_digit(q)),
        o.max >= 1,
    ensures
        fuzzy_results(es, q, sc, o, calc) == seq![
            ResultView { entry: web_entry(q, o.web, sc.now), score: BONUS_SCORE_WEB_SEARCH as int },
        ],
        fuzzy_results(es, q, sc, o, calc)[0].score < 0,
{
    let m = catalogue_matches(es, q, sc, o.show_actions);
    let e = Seq::<ResultView>::empty();
    assert(sorted_by(e, Order::ByScoreThenName) == e);
    let w = ResultView { entry: web_entry(q, o.web, sc.now), score: BONUS_SCORE_WEB_SEARCH as int };
    assert(!has_web_category(e));
    assert(e.push(w).drop_last() =~= e);
    assert(sorted_by(e.push(w), Order::ByScoreThenName) =~= seq![w]);
}

/// A reserved control token never gets a web-search entry: its results are those it gets with
/// web search turned off.
pub proof fn lemma_excluded_query_no_web(
    es: Seq<EntryView>,
    q: Seq<char>,
    sc: Scoring,
    o: FuzzyOptions,
    calc: Seq<char>,
)
    requires
        is_excluded_query(q),
    ensures
        fuzzy_results(es, q, sc, o, calc) == fuzzy_results(
            es,
            q,
            sc,
            FuzzyOptions { web: WebSearch { enabled: false, ..o.web }, ..o },
            calc,
        ),
        fuzzy_results(es, q, sc, o, calc) == truncated(
            sorted_by(
                with_calc(
                    with_binary(catalogue_matches(es, q, sc, o.show_actions), es, q, o.binary_found, sc.now),
                    q,
                    o.calculator,
                    calc,
                    sc.now,
                ),
                Order::ByScoreThenName,
            ),
            o.max,
        ),
{
}

/// An entry outside the "Web Search" category.
pub open spec fn not_web(e: EntryView) -> bool {
    !e.categories.contains("Web Search"@)
}

proof fn lemma_actions_not_web(e: EntryView, acts: Seq<ActionView>, q: Seq<char>, b: int)
    requires
        not_web(e),
    ensures
        forall|k: int|
            0 <= k < action_results(e, acts, q, b).len() ==> not_web(
                #[trigger] action_results(e, acts, q, b)[k].entry,
            ),
    decreases acts.len(),
{
    if acts.len() > 0 {
        lemma_actions_not_web(e, acts.drop_last(), q, b);
    }
}

proof fn lemma_matches_not_web(es: Seq<EntryView>, q: Seq<char>, sc: Scoring, show: bool)
    requires
        forall|i: int| 0 <= i < es.len() ==> not_web(#[trigger] es[i]),
    ensures
        forall|k: int|
            0 <= k < catalogue_matches(es, q, sc, show).len() ==> not_web(
                #[trigger] catalogue_matches(es, q, sc, show)[k].entry,
            ),
    decreases es.len(),
{
    if es.len() > 0 {
        let e = es.last();
        assert(not_web(es[es.len() - 1]));
        lemma_matches_not_web(es.drop_last(), q, sc, show);
        lemma_actions_not_web(e, e.actions, q, entry_bonus(e, sc));
    }
}

/// A reserved control token gets no result in the "Web Search" category when no catalogue entry
/// is in it: neither the empty-result fallback nor the always-append step adds one.
pub proof fn lemma_excluded_query_no_web_entry(
    es: Seq<EntryView>,
    q: Seq<char>,
    sc: Scoring,
    o: FuzzyOptions,
    calc: Seq<char>,
)
    requires
        is_excluded_query(q),
        forall|i: int| 0 <= i < es.len() ==> not_web(#[trigger] es[i]),
    ensures
        !has_web_category(fuzzy_results(es, q, sc, o, calc)),
{
    let m = catalogue_matches(es, q, sc, o.show_actions);
    let m1 = with_binary(m, es, q, o.binary_found, sc.now);
    let m2 = with_calc(m1, q, o.calculator, calc, sc.now);
    lemma_matches_not_web(es, q, sc, o.show_actions);
    assert(not_web(binary_entry(q, sc.now)));
    assert(not_web(calc_entry(calc, sc.now))) by {
        reveal_strlit("Calculation");
        reveal_strlit("Web Search");
        assert("Calculation"@.len() == 11);
        assert("Web Search"@.len() == 10);
        assert(seq!["Calculation"@][0] != "Web Search"@);
        assert(calc_entry(calc, sc.now).categories =~= seq!["Calculation"@]);
        if calc_entry(calc, sc.now).categories.contains("Web Search"@) {
            let j = choose|j: int| 0 <= j < 1 && seq!["Calculation"@][j] == "Web Search"@;
            assert(j == 0);
        }
    }
    assert forall|k: int| 0 <= k < m2.len() implies not_web(#[trigger] m2[k].entry) by {
        if k < m.len() {
            assert(m2[k] == m[k]);
        }
    }
    let s = sorted_by(m2, Order::ByScoreThenName);
    lemma_sorted_members(m2, Order::ByScoreThenName);
    let t = truncated(s, o.max);
    assert forall|k: int| 0 <= k < t.len() implies not_web(#[trigger] t[k].entry) by {
        assert(t[k] == s[k]);
        let j = choose|j: int| 0 <= j < m2.len() && m2[j] == s[k];
    }
    lemma_excluded_query_no_web(es, q, sc, o, calc);
    if has_web_category(t) {
        let (i, j) = choose|i: int, j: int|
            0 <= i < t.len() && 0 <= j < t[i].entry.categories.len() && #[trigger] t[i].entry.categories[j]
                == "Web Search"@;
        assert(not_web(t[i].entry));
        assert(t[i].entry.categories.contains("Web Search"@));
    }
}

/// The line a dmenu match is compared on.
pub open spec fn compared(line: Seq<char>, case_sensitive: bool) -> Seq<char> {
    if case_sensitive {
        line
    } else {
        lower_of(line)
    }
}

proof fn lemma_dmenu_scores(lines: Seq<Seq<char>>, q: Seq<char>, cs: bool)
    ensures
        forall|k: int|
            0 <= k < dmenu_matches(lines, q, cs).len() ==> (#[trigger] dmenu_matches(lines, q, cs)[k]).score
                == skim_score(compared(dmenu_matches(lines, q, cs)[k].entry.name, cs), q) as int,
    decreases lines.len(),
{
    if lines.len() > 0 {
        lemma_dmenu_scores(lines.drop_last(), q, cs);
    }
}

/// Dmenu results come best match first: each returned line's fuzzy score against the query is
/// at least that of every line after it.
pub proof fn lemma_dmenu_order(q: Seq<char>, lines: Seq<Seq<char>>, cs: bool, max: nat)
    ensures
        ({
            let qq = compared(q, cs);
            let r = dmenu_results(q, lines, cs, false, max);
            forall|i: int, j: int|
                0 <= i < j < r.len() ==> skim_score(compared(r[i], cs), qq) >= skim_score(
                    compared(r[j], cs),
                    qq,
                )
        }),
{
    let qq = compared(q, cs);
    let m = dmenu_matches(lines, qq, cs);
    let s = sorted_by(m, Order::ByScore);
    let t = truncated(s, max);
    let r = dmenu_results(q, lines, cs, false, max);
    lemma_dmenu_scores(lines, qq, cs);
    lemma_sorted_members(m, Order::ByScore);
    lemma_sorted_by_is_sorted(m, Order::ByScore);
    assert(r == t.map_values(|x: ResultView| x.entry.name));
    assert forall|i: int, j: int| 0 <= i < j < r.len() implies skim_score(compared(r[i], cs), qq)
        >= skim_score(compared(r[j], cs), qq) by {
        assert(t[i] == s[i] && t[j] == s[j]);
        assert(!before(Order::ByScore, s[j], s[i]));
        let a = choose|a: int| 0 <= a < m.len() && m[a] == s[i];
        let b = choose|b: int| 0 <= b < m.len() && m[b] == s[j];
        assert(r[i] == s[i].entry.name && r[j] == s[j].entry.name);
    }
}

} // verus!
