//! Entries made up at query time: a binary on the system path, a calculation, a web search.
use crate::config::{engine_url, SearchPrefix, WebSearch};
use crate::entry::{action_views, ActionView, AppEntry, DesktopAction, EntryType, EntryView, GENERIC_ICON};
use crate::matching::{percent_encode, percent_encoded};
use crate::rank::{ResultView, SearchResult, BONUS_SCORE_BINARY, BONUS_SCORE_CALC, BONUS_SCORE_WEB_SEARCH};
use crate::text::{chars_of, concat, contains_str, occurs_in, join_strings, joined, owned, pieces, split_pieces, str_eq, string_of, views};
use rink_core::Context;
use vstd::prelude::*;
use vstd::utf8::encode_utf8;

verus! {

#[verifier::external_type_specification]
#[verifier::external_body]
pub struct ExContext(Context);

proof fn lemma_empty_fields(k: Vec<String>, a: Vec<DesktopAction>, d: String)
    requires
        k@.len() == 0,
        a@.len() == 0,
        d@.len() == 0,
    ensures
        views(k@) == Seq::<Seq<char>>::empty(),
        action_views(a@) == Seq::<ActionView>::empty(),
        d@ == Seq::<char>::empty(),
{
    assert(views(k@) =~= Seq::<Seq<char>>::empty());
    assert(action_views(a@) =~= Seq::<ActionView>::empty());
    assert(d@ =~= Seq::<char>::empty());
}

/// The directory probed for a binary named like the query's first word.
pub const BINARY_DIR: &'static str = "/usr/bin/";

/// The path probed for a query: the binary directory and the query's first word.
pub open spec fn binary_path(q: Seq<char>) -> Seq<char> {
    BINARY_DIR@ + pieces(q, None)[0]
}

/// The entry that runs the binary named by the query's first word with the other words as
/// arguments.
pub open spec fn binary_entry(q: Seq<char>, now: u64) -> EntryView {
    let ws = pieces(q, None);
    EntryView {
        name: q,
        description: Seq::empty(),
        path: binary_path(q),
        command: if ws.len() > 1 {
            binary_path(q) + " "@ + joined(ws.subrange(1, ws.len() as int), " "@)
        } else {
            binary_path(q)
        },
        icon_name: GENERIC_ICON@,
        launch_count: 0,
        last_used: Some(now),
        entry_type: EntryType::Application,
        score_boost: BONUS_SCORE_BINARY,
        keywords: Seq::empty(),
        categories: Seq::empty(),
        terminal: false,
        actions: Seq::empty(),
    }
}

/// The path to probe for the query's first word, if it has one.
pub fn binary_probe_path(query: &str) -> (r: Option<String>)
    ensures
        match r {
            Some(p) => pieces(query@, None).len() > 0 && p@ == binary_path(query@),
            None => pieces(query@, None).len() == 0,
        },
{
    let words = split_pieces(query, None);
    if words.len() == 0 {
        return None;
    }
    assert(views(words@)[0] == words@[0]@);
    Some(concat(BINARY_DIR, words[0].as_str()))
}

/// The binary entry for a query whose first word names an executable in the binary directory
/// (`found` says whether it does).
pub fn check_binary(query: &str, found: bool, now: u64) -> (r: Option<SearchResult>)
    ensures
        match r {
            Some(x) => found && pieces(query@, None).len() > 0 && x@ == (ResultView {
                entry: binary_entry(query@, now),
                score: BONUS_SCORE_BINARY as int,
            }),
            None => !found || pieces(query@, None).len() == 0,
        },
{
    let words = split_pieces(query, None);
    if words.len() == 0 || !found {
        return None;
    }
    assert(views(words@)[0] == words@[0]@);
    let bin_path = concat(BINARY_DIR, words[0].as_str());
    let command = if words.len() > 1 {
        let mut rest: Vec<String> = Vec::new();
        let mut i: usize = 1;
        while i < words.len()
            invariant
                1 <= i <= words.len(),
                views(rest@) == views(words@).subrange(1, i as int),
            decreases words.len() - i,
        {
            let ghost before = views(rest@);
            rest.push(words[i].clone());
            assert(views(rest@) =~= before.push(words@[i as int]@));
            assert(views(words@).subrange(1, i + 1) =~= views(words@).subrange(1, i as int).push(words@[i as int]@));
            i += 1;
        }
        let tail = join_strings(&rest, " ");
        concat(concat(bin_path.as_str(), " ").as_str(), tail.as_str())
    } else {
        bin_path.clone()
    };
    let app = AppEntry {
        name: owned(query),
        description: String::new(),
        path: bin_path,
        command,
        icon_name: owned(GENERIC_ICON),
        launch_count: 0,
        last_used: Some(now),
        entry_type: EntryType::Application,
        score_boost: BONUS_SCORE_BINARY,
        keywords: Vec::new(),
        categories: Vec::new(),
        terminal: false,
        actions: Vec::new(),
    };
    proof {
        lemma_empty_fields(app.keywords, app.actions, app.description);
        lemma_empty_fields(app.categories, app.actions, app.description);
    }
    let r = SearchResult { app, score: BONUS_SCORE_BINARY };
    assert(r@.entry == binary_entry(query@, now));
    Some(r)
}

/// Relies on `rink_core::simple_context`: a unit context from rink's bundled definitions, or
/// an error text.
#[verifier::external_body]
fn calc_context() -> (r: Result<Context, String>) {
    rink_core::simple_context()
}

/// The longest line handed to rink: its parser and evaluator recurse once per nesting level.
pub const MAX_CALC_LINE: usize = 256;

/// A character of plain arithmetic: a digit, `.`, a space, `+ - * /` or a parenthesis.
pub open spec fn is_calc_char(c: char) -> bool {
    ('0' <= c && c <= '9') || c == '.' || c == ' ' || c == '+' || c == '-' || c == '*' || c == '/'
        || c == '(' || c == ')'
}

/// A line of plain arithmetic that rink evaluates without panicking or running on: short, made
/// of arithmetic characters only, and without `**` (rink's power operator). No unit, `now`,
/// conversion (`->`), time-zone offset, date or power can be written in it, so evaluation stays
/// with rational addition, subtraction, multiplication and division, where division by zero is
/// an error value.
pub open spec fn calc_line_ok(line: Seq<char>) -> bool {
    &&& line.len() <= MAX_CALC_LINE
    &&& forall|i: int| 0 <= i < line.len() ==> is_calc_char(#[trigger] line[i])
    &&& !occurs_in("**"@, line)
}

fn calc_chars_only(v: &Vec<char>) -> (r: bool)
    ensures
        r == forall|i: int| 0 <= i < v@.len() ==> is_calc_char(#[trigger] v@[i]),
{
    let mut i: usize = 0;
    while i < v.len()
        invariant
            i <= v.len(),
            forall|j: int| 0 <= j < i ==> is_calc_char(#[trigger] v@[j]),
        decreases v.len() - i,
    {
        let c = v[i];
        if !(('0' <= c && c <= '9') || c == '.' || c == ' ' || c == '+' || c == '-' || c == '*'
            || c == '/' || c == '(' || c == ')') {
            return false;
        }
        i += 1;
    }
    true
}

/// Whether rink may be handed `line` (see `calc_line_ok`).
pub fn calc_line_allowed(line: &str) -> (r: bool)
    ensures
        r == calc_line_ok(line@),
{
    let v = chars_of(line);
    v.len() <= MAX_CALC_LINE && calc_chars_only(&v) && !contains_str(line, "**")
}

/// Relies on `rink_core::one_line`: the evaluated line or an error text. Only plain arithmetic
/// is handed over (see `calc_line_ok`).
#[verifier::external_body]
fn calc_line(ctx: &mut Context, line: &str) -> (r: Result<String, String>)
    requires
        calc_line_ok(line@),
{
    rink_core::one_line(ctx, line)
}

/// A space followed by `(`: where rink starts the dimension it prints after a value.
pub open spec fn is_unit_mark(s: Seq<char>, p: int) -> bool {
    0 <= p && p + 1 < s.len() && s[p] == ' ' && s[p + 1] == '('
}

/// `p` is the first unit mark of `s`.
pub open spec fn is_first_unit_mark(s: Seq<char>, p: int) -> bool {
    is_unit_mark(s, p) && forall|j: int| 0 <= j < p ==> !is_unit_mark(s, j)
}

/// The value of an evaluation, or "0" on failure.
pub open spec fn calc_value(res: Result<String, String>) -> Seq<char> {
    match res {
        Ok(s) => s@,
        Err(_) => "0"@,
    }
}

/// A value cut before its first " (" (the dimension rink appends); kept whole without one.
pub open spec fn cut_at_paren(t: Seq<char>) -> Seq<char> {
    if exists|p: int| is_first_unit_mark(t, p) {
        let p = choose|p: int| is_first_unit_mark(t, p);
        t.subrange(0, p)
    } else {
        t
    }
}

/// The text shown for an evaluation.
pub open spec fn calc_text(res: Result<String, String>) -> Seq<char> {
    cut_at_paren(calc_value(res))
}

/// What a calculation result is shown as (see `calc_text`).
pub fn calc_display(res: Result<String, String>) -> (r: String)
    ensures
        r@ == calc_text(res),
{
    let ghost tv = calc_value(res);
    let t = match res {
        Ok(s) => s,
        Err(_) => owned("0"),
    };
    assert(t@ == tv);
    let v = chars_of(t.as_str());
    let mut i: usize = 0;
    while i < v.len() && i + 1 < v.len()
        invariant
            v@ == t@,
            t@ == tv,
            tv == calc_value(res),
            i <= v.len(),
            forall|j: int| 0 <= j < i ==> !is_unit_mark(v@, j),
        decreases v.len() - i,
    {
        if v[i] == ' ' && v[i + 1] == '(' {
            let ghost p = choose|p: int| is_first_unit_mark(t@, p);
            assert(is_first_unit_mark(t@, i as int));
            assert(p == i) by {
                if p < i {
                    assert(!is_unit_mark(v@, p));
                } else if p > i {
                    assert(is_unit_mark(t@, i as int));
                }
            }
            let mut out: Vec<char> = Vec::new();
            let mut k: usize = 0;
            while k < i
                invariant
                    i <= v.len(),
                    k <= i,
                    out@ == v@.subrange(0, k as int),
                decreases i - k,
            {
                out.push(v[k]);
                k += 1;
            }
            assert(cut_at_paren(t@) == out@);
            return string_of(&out);
        }
        i += 1;
    }
    assert(!exists|p: int| is_first_unit_mark(t@, p)) by {
        if exists|p: int| is_first_unit_mark(t@, p) {
            let p = choose|p: int| is_first_unit_mark(t@, p);
            assert(!is_unit_mark(v@, p));
        }
    }
    t
}

/// Evaluates an arithmetic expression; a failure shows as "0", and so does a line rink cannot
/// be handed (see `calc_line_ok`). What rink answers is left open, so the text is the display of
/// some evaluation outcome.
pub fn handle_calculation(query: &str) -> (r: String)
    ensures
        exists|res: Result<String, String>| r@ == calc_text(res),
        !calc_line_ok(query@) ==> r@ == "0"@,
{
    let ok = calc_line_allowed(query);
    let res = if !ok {
        Err(owned("expression not evaluated"))
    } else {
        match calc_context() {
            Ok(mut ctx) => calc_line(&mut ctx, query),
            Err(e) => Err(e),
        }
    };
    proof {
        if !ok {
            assert(calc_value(res) == "0"@);
            assert(!exists|p: int| is_first_unit_mark("0"@, p)) by {
                reveal_strlit("0");
            }
        }
    }
    let ghost outcome = res;
    let r = calc_display(res);
    assert(r@ == calc_text(outcome));
    r
}

/// The entry that copies a calculation result.
pub open spec fn calc_entry(text: Seq<char>, now: u64) -> EntryView {
    EntryView {
        name: text,
        description: "Copy to clipboard"@,
        path: Seq::empty(),
        command: "wl-copy -t text/plain \""@ + text + "\""@,
        icon_name: "calculator"@,
        launch_count: 0,
        last_used: Some(now),
        entry_type: EntryType::Application,
        score_boost: 0,
        keywords: Seq::empty(),
        categories: seq!["Calculation"@],
        terminal: false,
        actions: Seq::empty(),
    }
}

/// The calculator result for an evaluated text.
pub fn create_calc_entry(text: &str, now: u64) -> (r: SearchResult)
    ensures
        r@ == (ResultView { entry: calc_entry(text@, now), score: BONUS_SCORE_CALC as int }),
{
    let command = concat(concat("wl-copy -t text/plain \"", text).as_str(), "\"");
    let categories = vec![owned("Calculation")];
    assert(views(categories@) =~= seq!["Calculation"@]);
    let app = AppEntry {
        name: owned(text),
        description: owned("Copy to clipboard"),
        path: String::new(),
        command,
        icon_name: owned("calculator"),
        launch_count: 0,
        last_used: Some(now),
        entry_type: EntryType::Application,
        score_boost: 0,
        keywords: Vec::new(),
        categories,
        terminal: false,
        actions: Vec::new(),
    };
    proof {
        lemma_empty_fields(app.keywords, app.actions, app.path);
    }
    let r = SearchResult { app, score: BONUS_SCORE_CALC };
    assert(r@.entry == calc_entry(text@, now));
    r
}

/// `c` is the position of the first `:` in `q`.
pub open spec fn is_first_colon(q: Seq<char>, c: int) -> bool {
    0 <= c < q.len() && q[c] == ':' && forall|j: int| 0 <= j < c ==> q[j] != ':'
}

/// `i` is the position of the first prefix entry whose prefix is `p`.
pub open spec fn is_first_prefix(ps: Seq<SearchPrefix>, p: Seq<char>, i: int) -> bool {
    0 <= i < ps.len() && ps[i].prefix@ == p && forall|j: int| 0 <= j < i ==> ps[j].prefix@ != p
}

/// A web-search entry with a display name, a URL prefix and the term searched.
pub open spec fn web_entry_with(name: Seq<char>, url: Seq<char>, term: Seq<char>, now: u64) -> EntryView {
    EntryView {
        name,
        description: "Open in default web browser"@,
        path: Seq::empty(),
        command: "xdg-open \""@ + url + percent_encoded(encode_utf8(term)) + "\""@,
        icon_name: "web-browser"@,
        launch_count: 0,
        last_used: Some(now),
        entry_type: EntryType::Application,
        score_boost: 0,
        keywords: Seq::empty(),
        categories: seq!["Web Search"@],
        terminal: false,
        actions: Seq::empty(),
    }
}

/// The web-search entry for a query: `prefix:term` with a configured prefix searches `term`
/// at that prefix's URL; any other query is searched whole at the engine's URL.
pub open spec fn web_entry(q: Seq<char>, ws: WebSearch, now: u64) -> EntryView {
    if exists|c: int| is_first_colon(q, c) {
        let c = choose|c: int| is_first_colon(q, c);
        let p = q.subrange(0, c);
        let t = q.subrange(c + 1, q.len() as int);
        if exists|i: int| is_first_prefix(ws.prefixes@, p, i) {
            let i = choose|i: int| is_first_prefix(ws.prefixes@, p, i);
            web_entry_with("Search '"@ + t + "' on "@ + p, ws.prefixes@[i].url@, t, now)
        } else {
            web_entry_with("Search '"@ + q + "' on the web"@, engine_url(ws.engine), q, now)
        }
    } else {
        web_entry_with("Search '"@ + q + "' on the web"@, engine_url(ws.engine), q, now)
    }
}

fn make_web_entry(name: String, url: &str, term: &str, now: u64) -> (r: SearchResult)
    ensures
        r@ == (ResultView {
            entry: web_entry_with(name@, url@, term@, now),
            score: BONUS_SCORE_WEB_SEARCH as int,
        }),
{
    let encoded = percent_encode(term);
    let command = concat(
        concat(concat("xdg-open \"", url).as_str(), encoded.as_str()).as_str(),
        "\"",
    );
    let categories = vec![owned("Web Search")];
    assert(views(categories@) =~= seq!["Web Search"@]);
    let app = AppEntry {
        name,
        description: owned("Open in default web browser"),
        path: String::new(),
        command,
        icon_name: owned("web-browser"),
        launch_count: 0,
        last_used: Some(now),
        entry_type: EntryType::Application,
        score_boost: 0,
        keywords: Vec::new(),
        categories,
        terminal: false,
        actions: Vec::new(),
    };
    proof {
        lemma_empty_fields(app.keywords, app.actions, app.path);
    }
    let r = SearchResult { app, score: BONUS_SCORE_WEB_SEARCH };
    assert(r@.entry == web_entry_with(name@, url@, term@, now));
    r
}

fn whole_query_entry(query: &str, config: &WebSearch, now: u64) -> (r: SearchResult)
    ensures
        r@ == (ResultView {
            entry: web_entry_with(
                "Search '"@ + query@ + "' on the web"@,
                engine_url(config.engine),
                query@,
                now,
            ),
            score: BONUS_SCORE_WEB_SEARCH as int,
        }),
{
    let name = concat(concat("Search '", query).as_str(), "' on the web");
    let url = config.engine.get_url();
    make_web_entry(name, url.as_str(), query, now)
}

/// The web-search result for a query (see `web_entry`), scored below every genuine match.
pub fn create_web_search_entry(query: &str, config: &WebSearch, now: u64) -> (r: SearchResult)
    ensures
        r@ == (ResultView {
            entry: web_entry(query@, *config, now),
            score: BONUS_SCORE_WEB_SEARCH as int,
        }),
{
    let v = chars_of(query);
    let mut c: usize = 0;
    while c < v.len() && v[c] != ':'
        invariant
            v@ == query@,
            c <= v.len(),
            forall|j: int| 0 <= j < c ==> v@[j] != ':',
        decreases v.len() - c,
    {
        c += 1;
    }
    if c == v.len() {
        assert(!exists|k: int| is_first_colon(query@, k)) by {
            if exists|k: int| is_first_colon(query@, k) {
                let k = choose|k: int| is_first_colon(query@, k);
                assert(v@[k] == ':');
            }
        }
        return whole_query_entry(query, config, now);
    }
    let ghost cc = choose|k: int| is_first_colon(query@, k);
    assert(is_first_colon(query@, c as int));
    assert(cc == c) by {
        if cc < c {
            assert(v@[cc] != ':');
        } else if cc > c {
            assert(query@[c as int] != ':');
        }
    }
    let mut pv: Vec<char> = Vec::new();
    let mut k: usize = 0;
    while k < c
        invariant
            k <= c < v.len(),
            pv@ == v@.subrange(0, k as int),
        decreases c - k,
    {
        pv.push(v[k]);
        k += 1;
    }
    let mut tv: Vec<char> = Vec::new();
    let mut k: usize = c + 1;
    while k < v.len()
        invariant
            c + 1 <= k <= v.len(),
            tv@ == v@.subrange(c + 1, k as int),
        decreases v.len() - k,
    {
        tv.push(v[k]);
        k += 1;
    }
    let prefix = string_of(&pv);
    let term = string_of(&tv);
    assert(term@ == query@.subrange(c + 1, query@.len() as int));
    let ps = &config.prefixes;
    let mut i: usize = 0;
    while i < ps.len()
        invariant
            i <= ps.len(),
            ps == &config.prefixes,
            cc == c,
            is_first_colon(query@, c as int),
            term@ == query@.subrange(c + 1, query@.len() as int),
            prefix@ == query@.subrange(0, c as int),
            forall|j: int| 0 <= j < i ==> ps@[j].prefix@ != prefix@,
        decreases ps.len() - i,
    {
        if str_eq(ps[i].prefix.as_str(), prefix.as_str()) {
            let ghost ii = choose|j: int| is_first_prefix(ps@, prefix@, j);
            assert(is_first_prefix(ps@, prefix@, i as int));
            assert(ii == i) by {
                if ii < i {
                    assert(ps@[ii].prefix@ != prefix@);
                } else if ii > i {
                    assert(ps@[i as int].prefix@ != prefix@);
                }
            }
            let name = concat(
                concat(concat("Search '", term.as_str()).as_str(), "' on ").as_str(),
                prefix.as_str(),
            );
            assert(exists|k: int| is_first_colon(query@, k));
            assert(query@.subrange(0, cc) == prefix@);
            assert(exists|j: int| is_first_prefix(config.prefixes@, prefix@, j));
            assert(web_entry(query@, *config, now) == web_entry_with(
                "Search '"@ + term@ + "' on "@ + prefix@,
                ps@[i as int].url@,
                term@,
                now,
            ));
            return make_web_entry(name, ps[i].url.as_str(), term.as_str(), now);
        }
        i += 1;
    }
    assert(!exists|j: int| is_first_prefix(ps@, prefix@, j)) by {
        if exists|j: int| is_first_prefix(ps@, prefix@, j) {
            let j = choose|j: int| is_first_prefix(ps@, prefix@, j);
            assert(ps@[j].prefix@ != prefix@);
        }
    }
    whole_query_entry(query, config, now)
}

} // verus!
