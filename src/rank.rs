//! Scores, usage history and the stable orderings used by every search mode.
use crate::entry::{AppEntry, EntryView, GENERIC_ICON};
use crate::keyed::KeyedList;
use crate::text::{
    chars_less, chars_of, contains_str, eq_ignore_ascii_case, lex_lt, lower_of, lowercase,
    occurs_in, same_ignoring_ascii_case, str_eq, views, lemma_lex_lt_transitive,
    lemma_lex_lt_irreflexive,
};
use crate::usage::{Heatmap, HeatmapEntry};
use vstd::prelude::*;

verus! {

pub const BONUS_SCORE_ICON_NAME: i64 = 1000;
pub const BONUS_SCORE_BINARY: i64 = 3000;
pub const BONUS_SCORE_KEYWORD_MATCH: i64 = 2500;
pub const BONUS_SCORE_CATEGORY_MATCH: i64 = 2000;
pub const BONUS_SCORE_WEB_SEARCH: i64 = -1000;
pub const BONUS_SCORE_CALC: i64 = 1000;
pub const OPEN_WINDOW_PENALTY: i64 = -500;
pub const ACTION_PENALTY: i64 = 100;

/// Bounds every bonus lies within (the lowest: last use at time 0, read at `u64::MAX`).
pub const MIN_BONUS: i64 = -1900000000000000000;
pub const MAX_BONUS: i64 = 11200;

/// One ranked result: an owned copy of an entry and its score.
#[derive(Clone, Debug)]
pub struct SearchResult {
    pub app: AppEntry,
    pub score: i64,
}

pub ghost struct ResultView {
    pub entry: EntryView,
    pub score: int,
}

impl View for SearchResult {
    type V = ResultView;

    open spec fn view(&self) -> ResultView {
        ResultView { entry: self.app@, score: self.score as int }
    }
}

pub open spec fn result_views(v: Seq<SearchResult>) -> Seq<ResultView> {
    v.map_values(|r: SearchResult| r@)
}

impl SearchResult {
    pub fn duplicate(&self) -> (r: SearchResult)
        ensures
            r@ == self@,
    {
        SearchResult { app: self.app.duplicate(), score: self.score }
    }
}

/// Usage data as the ranking engine reads it.
#[derive(Clone, Copy, Debug, PartialEq, Eq, Structural)]
pub struct HistoryEntry {
    pub last_used: u64,
    pub use_count: u32,
}

/// Usage history keyed by entry name.
pub type History = KeyedList<HistoryEntry>;

pub open spec fn history_of(h: HeatmapEntry) -> HistoryEntry {
    HistoryEntry { last_used: h.last_used, use_count: h.count }
}

/// The value under `k`, if any.
pub open spec fn lookup<V>(m: Map<Seq<char>, V>, k: Seq<char>) -> Option<V> {
    if m.contains_key(k) {
        Some(m[k])
    } else {
        None
    }
}

/// The ranking engine's view of the usage records.
pub fn load_history(heatmap: &Heatmap) -> (r: History)
    requires
        heatmap.wf(),
    ensures
        r.wf(),
        r.view() == heatmap.view().map_values(|h: HeatmapEntry| history_of(h)),
{
    let mut r: History = KeyedList::new();
    let n = heatmap.len();
    let mut i: usize = 0;
    while i < n
        invariant
            heatmap.wf(),
            r.wf(),
            n == heatmap.key_seq().len(),
            i <= n,
            forall|k: Seq<char>|
                #[trigger] r.view().contains_key(k) <==> heatmap.key_seq().subrange(
                    0,
                    i as int,
                ).contains(k),
            forall|k: Seq<char>|
                #[trigger] r.view().contains_key(k) ==> r.view()[k] == history_of(
                    heatmap.view()[k],
                ),
        decreases n - i,
    {
        let name = heatmap.key_at(i);
        let h = heatmap.value_at(i);
        let ghost before = r.view();
        r.insert(name.as_str(), HistoryEntry { last_used: h.last_used, use_count: h.count });
        let ghost pre = heatmap.key_seq().subrange(0, i as int);
        let ghost next = heatmap.key_seq().subrange(0, i + 1);
        assert(next =~= pre.push(name@));
        assert forall|k: Seq<char>| #[trigger] r.view().contains_key(k) <==> next.contains(k) by {
            if k == name@ {
                assert(next[i as int] == k);
            } else if pre.contains(k) {
                let j = choose|j: int| 0 <= j < pre.len() && pre[j] == k;
                assert(next[j] == k);
            } else if next.contains(k) {
                let j = choose|j: int| 0 <= j < next.len() && next[j] == k;
                assert(j < i);
                assert(pre[j] == k);
            }
        }
        i += 1;
    }
    proof {
        assert(heatmap.key_seq().subrange(0, n as int) =~= heatmap.key_seq());
        heatmap.lemma_keys();
    }
    assert(r.view() =~= heatmap.view().map_values(|h: HeatmapEntry| history_of(h)));
    r
}

/// Whole seconds since `then`, or 0 when `then` lies ahead of `now`.
pub open spec fn elapsed(now: u64, then: u64) -> int {
    if now >= then {
        now - then
    } else {
        0
    }
}

/// Twenty points per use, at most 200.
pub open spec fn capped_uses(n: int) -> int {
    if n * 20 < 200 {
        n * 20
    } else {
        200
    }
}

/// The recency/frequency part of the bonus.
pub open spec fn usage_bonus(e: EntryView, h: Option<HistoryEntry>, now: u64) -> int {
    match h {
        Some(h) => 10000 - elapsed(now, h.last_used) / 10 + capped_uses(h.use_count as int),
        None => capped_uses(e.launch_count as int),
    }
}

/// Some open window's lower-cased class occurs in the entry's lower-cased name or command.
pub open spec fn is_running(e: EntryView, windows: Seq<Seq<char>>) -> bool {
    exists|i: int|
        0 <= i < windows.len() && (occurs_in(lower_of(#[trigger] windows[i]), lower_of(e.name))
            || occurs_in(lower_of(windows[i]), lower_of(e.command)))
}

/// The bonus every match of an entry gets: recency and frequency, a specific icon, and a
/// penalty when the application already has a window.
pub open spec fn bonus_score(
    e: EntryView,
    h: Option<HistoryEntry>,
    now: u64,
    windows: Seq<Seq<char>>,
) -> int {
    usage_bonus(e, h, now) + (if e.icon_name != GENERIC_ICON@ {
        BONUS_SCORE_ICON_NAME as int
    } else {
        0
    }) + (if is_running(e, windows) {
        OPEN_WINDOW_PENALTY as int
    } else {
        0
    })
}

fn capped_uses_exec(n: u32) -> (r: i64)
    ensures
        r == capped_uses(n as int),
{
    if n >= 10 {
        200
    } else {
        (n as i64) * 20
    }
}

/// Whether an open window's lower-cased class occurs in the entry's lower-cased name or command.
fn running(app: &AppEntry, windows: &Vec<String>) -> (r: bool)
    ensures
        r == is_running(app@, views(windows@)),
{
    let name = lowercase(app.name.as_str());
    let command = lowercase(app.command.as_str());
    let mut i: usize = 0;
    while i < windows.len()
        invariant
            i <= windows.len(),
            name@ == lower_of(app.name@),
            command@ == lower_of(app.command@),
            forall|j: int|
                0 <= j < i ==> !occurs_in(lower_of(#[trigger] views(windows@)[j]), lower_of(app.name@))
                    && !occurs_in(lower_of(views(windows@)[j]), lower_of(app.command@)),
        decreases windows.len() - i,
    {
        let class = lowercase(windows[i].as_str());
        if contains_str(name.as_str(), class.as_str()) || contains_str(
            command.as_str(),
            class.as_str(),
        ) {
            assert(views(windows@)[i as int] == windows@[i as int]@);
            return true;
        }
        i += 1;
    }
    false
}

/// The bonus of an entry (see `bonus_score`).
pub fn calculate_bonus_score(
    app: &AppEntry,
    history: &History,
    now: u64,
    windows: &Vec<String>,
) -> (r: i64)
    requires
        history.wf(),
    ensures
        r == bonus_score(app@, lookup(history.view(), app.name@), now, views(windows@)),
        MIN_BONUS <= r <= MAX_BONUS,
{
    let mut score: i64 = match history.get(app.name.as_str()) {
        Some(h) => {
            let since: u64 = if now >= h.last_used {
                now - h.last_used
            } else {
                0
            };
            10000 - ((since / 10) as i64) + capped_uses_exec(h.use_count)
        },
        None => capped_uses_exec(app.launch_count),
    };
    if !str_eq(app.icon_name.as_str(), GENERIC_ICON) {
        score = score + BONUS_SCORE_ICON_NAME;
    }
    if running(app, windows) {
        score = score + OPEN_WINDOW_PENALTY;
    }
    score
}

/// Control tokens that never get a web-search entry.
pub open spec fn is_excluded_query(q: Seq<char>) -> bool {
    same_ignoring_ascii_case(q, "__config_reload__"@) || same_ignoring_ascii_case(
        q,
        "__refresh__"@,
    )
}

/// Whether the query is a reserved control token (compared without ASCII case).
pub fn should_exclude_web_search(query: &str) -> (r: bool)
    ensures
        r == is_excluded_query(query@),
{
    eq_ignore_ascii_case(query, "__config_reload__") || eq_ignore_ascii_case(
        query,
        "__refresh__",
    )
}

/// The orders results are sorted in; each is strict: `before(o, a, b)` puts `a` ahead of `b`.
#[derive(Clone, Copy, Debug, PartialEq, Eq, Structural)]
pub enum Order {
    /// Higher score first.
    ByScore,
    /// Case-insensitive name, alphabetically.
    ByName,
    /// Higher score first, then case-insensitive name.
    ByScoreThenName,
}

pub open spec fn before(o: Order, a: ResultView, b: ResultView) -> bool {
    match o {
        Order::ByScore => a.score > b.score,
        Order::ByName => lex_lt(lower_of(a.entry.name), lower_of(b.entry.name)),
        Order::ByScoreThenName => a.score > b.score || (a.score == b.score && lex_lt(
            lower_of(a.entry.name),
            lower_of(b.entry.name),
        )),
    }
}

/// `x` placed ahead of the first element it goes before (after all it ties with).
pub open spec fn insert_sorted(s: Seq<ResultView>, x: ResultView, o: Order) -> Seq<ResultView>
    decreases s.len(),
{
    if s.len() == 0 {
        seq![x]
    } else if before(o, x, s[0]) {
        seq![x] + s
    } else {
        seq![s[0]] + insert_sorted(s.drop_first(), x, o)
    }
}

/// A stable sort: elements are inserted in turn, each after those it does not go before.
pub open spec fn sorted_by(s: Seq<ResultView>, o: Order) -> Seq<ResultView>
    decreases s.len(),
{
    if s.len() == 0 {
        s
    } else {
        insert_sorted(sorted_by(s.drop_last(), o), s.last(), o)
    }
}

/// No element goes before one ahead of it.
pub open spec fn is_sorted(s: Seq<ResultView>, o: Order) -> bool {
    forall|i: int, j: int| 0 <= i < j < s.len() ==> !before(o, #[trigger] s[j], #[trigger] s[i])
}

pub proof fn lemma_before_transitive(o: Order, a: ResultView, b: ResultView, c: ResultView)
    requires
        before(o, a, b),
        before(o, b, c),
    ensures
        before(o, a, c),
{
    match o {
        Order::ByScore => {},
        Order::ByName => {
            lemma_lex_lt_transitive(lower_of(a.entry.name), lower_of(b.entry.name), lower_of(c.entry.name));
        },
        Order::ByScoreThenName => {
            if a.score == b.score && b.score == c.score {
                lemma_lex_lt_transitive(lower_of(a.entry.name), lower_of(b.entry.name), lower_of(c.entry.name));
            }
        },
    }
}

pub proof fn lemma_before_irreflexive(o: Order, a: ResultView)
    ensures
        !before(o, a, a),
{
    lemma_lex_lt_irreflexive(lower_of(a.entry.name));
}

proof fn lemma_insert_at(s: Seq<ResultView>, x: ResultView, o: Order, p: int)
    requires
        0 <= p <= s.len(),
        forall|j: int| 0 <= j < p ==> !before(o, x, #[trigger] s[j]),
        p < s.len() ==> before(o, x, s[p]),
    ensures
        insert_sorted(s, x, o) == s.insert(p, x),
    decreases p,
{
    if s.len() == 0 {
        assert(s.insert(p, x) =~= seq![x]);
    } else if p == 0 {
        assert(s.insert(p, x) =~= seq![x] + s);
    } else {
        let t = s.drop_first();
        assert forall|j: int| 0 <= j < p - 1 implies !before(o, x, #[trigger] t[j]) by {
            assert(t[j] == s[j + 1]);
        }
        lemma_insert_at(t, x, o, p - 1);
        assert(s.insert(p, x) =~= seq![s[0]] + t.insert(p - 1, x));
    }
}

/// The elements of an insertion come from the sequence or are the inserted one.
proof fn lemma_insert_members(s: Seq<ResultView>, x: ResultView, o: Order)
    ensures
        insert_sorted(s, x, o).len() == s.len() + 1,
        forall|i: int|
            0 <= i < insert_sorted(s, x, o).len() ==> (#[trigger] insert_sorted(s, x, o)[i] == x
                || s.contains(insert_sorted(s, x, o)[i])),
    decreases s.len(),
{
    if s.len() > 0 && !before(o, x, s[0]) {
        lemma_insert_members(s.drop_first(), x, o);
        let r = insert_sorted(s, x, o);
        assert forall|i: int| 0 <= i < r.len() implies (#[trigger] r[i] == x || s.contains(r[i])) by {
            if i == 0 {
                assert(s[0] == r[0]);
            } else {
                let t = insert_sorted(s.drop_first(), x, o);
                assert(r[i] == t[i - 1]);
                if r[i] != x {
                    let k = choose|k: int| 0 <= k < s.drop_first().len() && s.drop_first()[k] == r[i];
                    assert(s[k + 1] == r[i]);
                }
            }
        }
    } else if s.len() > 0 {
        let r = insert_sorted(s, x, o);
        assert forall|i: int| 0 <= i < r.len() implies (#[trigger] r[i] == x || s.contains(r[i])) by {
            if i > 0 {
                assert(r[i] == s[i - 1]);
            }
        }
    }
}

/// Sorting keeps the length, and every element of the result comes from the input.
pub proof fn lemma_sorted_members(s: Seq<ResultView>, o: Order)
    ensures
        sorted_by(s, o).len() == s.len(),
        forall|i: int| 0 <= i < sorted_by(s, o).len() ==> s.contains(#[trigger] sorted_by(s, o)[i]),
    decreases s.len(),
{
    if s.len() > 0 {
        let pre = s.drop_last();
        lemma_sorted_members(pre, o);
        lemma_insert_members(sorted_by(pre, o), s.last(), o);
        let r = sorted_by(s, o);
        assert forall|i: int| 0 <= i < r.len() implies s.contains(#[trigger] r[i]) by {
            if r[i] == s.last() {
                assert(s[s.len() - 1] == r[i]);
            } else {
                let k = choose|k: int| 0 <= k < sorted_by(pre, o).len() && sorted_by(pre, o)[k] == r[i];
                let m = choose|m: int| 0 <= m < pre.len() && pre[m] == sorted_by(pre, o)[k];
                assert(s[m] == r[i]);
            }
        }
    }
}

proof fn lemma_insert_multiset(s: Seq<ResultView>, x: ResultView, o: Order)
    ensures
        insert_sorted(s, x, o).to_multiset() == s.to_multiset().insert(x),
    decreases s.len(),
{
    broadcast use vstd::seq_lib::group_to_multiset_ensures;
    broadcast use vstd::seq_lib::lemma_multiset_commutative;
    broadcast use vstd::multiset::group_multiset_axioms;

    if s.len() == 0 {
        assert(seq![x] =~= Seq::<ResultView>::empty().push(x));
        assert(insert_sorted(s, x, o).to_multiset() =~= s.to_multiset().insert(x));
    } else {
        assert(s =~= seq![s[0]] + s.drop_first());
        assert(seq![x] =~= Seq::<ResultView>::empty().push(x));
        assert(seq![s[0]] =~= Seq::<ResultView>::empty().push(s[0]));
        if before(o, x, s[0]) {
            assert(insert_sorted(s, x, o).to_multiset() =~= s.to_multiset().insert(x));
        } else {
            lemma_insert_multiset(s.drop_first(), x, o);
            assert(insert_sorted(s, x, o).to_multiset() =~= s.to_multiset().insert(x));
        }
    }
}

/// Sorting keeps every element with its multiplicity.
pub proof fn lemma_sorted_multiset(s: Seq<ResultView>, o: Order)
    ensures
        sorted_by(s, o).to_multiset() == s.to_multiset(),
    decreases s.len(),
{
    broadcast use vstd::seq_lib::group_to_multiset_ensures;

    if s.len() > 0 {
        lemma_sorted_multiset(s.drop_last(), o);
        lemma_insert_multiset(sorted_by(s.drop_last(), o), s.last(), o);
        assert(s =~= s.drop_last().push(s.last()));
    }
}

proof fn lemma_insert_sorted_sorted(s: Seq<ResultView>, x: ResultView, o: Order)
    requires
        is_sorted(s, o),
    ensures
        is_sorted(insert_sorted(s, x, o), o),
    decreases s.len(),
{
    if s.len() == 0 {
    } else if before(o, x, s[0]) {
        let r = insert_sorted(s, x, o);
        assert forall|i: int, j: int| 0 <= i < j < r.len() implies !before(o, #[trigger] r[j], #[trigger] r[i]) by {
            if i == 0 {
                assert(r[j] == s[j - 1]);
                if before(o, r[j], x) {
                    lemma_before_transitive(o, s[j - 1], x, s[0]);
                    if j - 1 > 0 {
                        assert(!before(o, s[j - 1], s[0]));
                    } else {
                        lemma_before_irreflexive(o, s[0]);
                    }
                }
            } else {
                assert(r[i] == s[i - 1] && r[j] == s[j - 1]);
            }
        }
    } else {
        let t = s.drop_first();
        assert(is_sorted(t, o)) by {
            assert forall|i: int, j: int| 0 <= i < j < t.len() implies !before(o, #[trigger] t[j], #[trigger] t[i]) by {
                assert(t[i] == s[i + 1] && t[j] == s[j + 1]);
            }
        }
        lemma_insert_sorted_sorted(t, x, o);
        lemma_insert_members(t, x, o);
        let r = insert_sorted(s, x, o);
        let u = insert_sorted(t, x, o);
        assert forall|i: int, j: int| 0 <= i < j < r.len() implies !before(o, #[trigger] r[j], #[trigger] r[i]) by {
            if i == 0 {
                assert(r[j] == u[j - 1]);
                if u[j - 1] != x {
                    let k = choose|k: int| 0 <= k < t.len() && t[k] == u[j - 1];
                    assert(s[k + 1] == r[j]);
                }
            } else {
                assert(r[i] == u[i - 1] && r[j] == u[j - 1]);
            }
        }
    }
}

/// A stable sort yields a sorted sequence.
pub proof fn lemma_sorted_by_is_sorted(s: Seq<ResultView>, o: Order)
    ensures
        is_sorted(sorted_by(s, o), o),
    decreases s.len(),
{
    if s.len() > 0 {
        lemma_sorted_by_is_sorted(s.drop_last(), o);
        lemma_insert_sorted_sorted(sorted_by(s.drop_last(), o), s.last(), o);
    }
}

fn goes_before(o: Order, a: &SearchResult, b: &SearchResult) -> (r: bool)
    ensures
        r == before(o, a@, b@),
{
    match o {
        Order::ByScore => a.score > b.score,
        Order::ByName => {
            let x = chars_of(lowercase(a.app.name.as_str()).as_str());
            let y = chars_of(lowercase(b.app.name.as_str()).as_str());
            chars_less(&x, &y)
        },
        Order::ByScoreThenName => {
            if a.score != b.score {
                a.score > b.score
            } else {
                let x = chars_of(lowercase(a.app.name.as_str()).as_str());
                let y = chars_of(lowercase(b.app.name.as_str()).as_str());
                chars_less(&x, &y)
            }
        },
    }
}

/// The results sorted stably in order `o`.
pub fn sort_results(v: Vec<SearchResult>, o: Order) -> (r: Vec<SearchResult>)
    ensures
        result_views(r@) == sorted_by(result_views(v@), o),
{
    let mut r: Vec<SearchResult> = Vec::new();
    let mut i: usize = 0;
    while i < v.len()
        invariant
            i <= v.len(),
            result_views(r@) == sorted_by(result_views(v@).subrange(0, i as int), o),
        decreases v.len() - i,
    {
        let x = v[i].duplicate();
        let ghost s = result_views(r@);
        assert(result_views(v@).subrange(0, i + 1).drop_last() =~= result_views(v@).subrange(0, i as int));
        let mut p: usize = 0;
        while p < r.len() && !goes_before(o, &x, &r[p])
            invariant
                p <= r.len(),
                s == result_views(r@),
                forall|j: int| 0 <= j < p ==> !before(o, x@, #[trigger] s[j]),
            decreases r.len() - p,
        {
            p += 1;
        }
        proof {
            lemma_insert_at(s, x@, o, p as int);
        }
        r.insert(p, x);
        assert(result_views(r@) =~= s.insert(p as int, v@[i as int]@));
        i += 1;
    }
    assert(result_views(v@).subrange(0, v.len() as int) =~= result_views(v@));
    r
}

} // verus!
