//! The usage store ("heatmap") and the catalogue that usage data is merged into.
use crate::entry::{AppEntry, EntryView};
use crate::keyed::{has_name, lemma_name_index, name_index, unique_names, KeyedList};
use crate::text::str_eq;
use vstd::prelude::*;

verus! {

/// One usage record: how often a name was launched and when last (unix seconds).
#[derive(Clone, Copy, Debug, PartialEq, Eq, Structural)]
pub struct HeatmapEntry {
    pub count: u32,
    pub last_used: u64,
}

/// Usage records keyed by entry name.
pub type Heatmap = KeyedList<HeatmapEntry>;

/// The names of a sequence of entries.
pub open spec fn entry_names(c: Seq<EntryView>) -> Seq<Seq<char>> {
    c.map_values(|e: EntryView| e.name)
}

/// The views of a list of entries.
pub open spec fn entry_views(v: Seq<AppEntry>) -> Seq<EntryView> {
    v.map_values(|e: AppEntry| e@)
}

/// The catalogue after adding `e`: an entry of the same name is replaced in place.
pub open spec fn catalogue_insert(c: Seq<EntryView>, e: EntryView) -> Seq<EntryView> {
    if has_name(entry_names(c), e.name) {
        c.update(name_index(entry_names(c), e.name), e)
    } else {
        c.push(e)
    }
}

/// An entry with its denormalized usage fields set.
pub open spec fn with_launch(e: EntryView, count: u32, now: u64) -> EntryView {
    EntryView { launch_count: count, last_used: Some(now), ..e }
}

/// The catalogue after a launch of `name` was recorded with `count` at `now`.
pub open spec fn launched(c: Seq<EntryView>, name: Seq<char>, count: u32, now: u64) -> Seq<
    EntryView,
> {
    if has_name(entry_names(c), name) {
        let i = name_index(entry_names(c), name);
        c.update(i, with_launch(c[i], count, now))
    } else {
        c
    }
}

/// A freshly parsed entry joined with its usage record, if there is one.
pub open spec fn with_usage(e: EntryView, h: Map<Seq<char>, HeatmapEntry>) -> EntryView {
    if h.contains_key(e.name) {
        with_launch(e, h[e.name].count, h[e.name].last_used)
    } else {
        e
    }
}

/// The catalogue rebuilt from parsed entries, in order, joined with the usage records.
pub open spec fn reloaded(parsed: Seq<EntryView>, h: Map<Seq<char>, HeatmapEntry>) -> Seq<
    EntryView,
>
    decreases parsed.len(),
{
    if parsed.len() == 0 {
        Seq::empty()
    } else {
        catalogue_insert(reloaded(parsed.drop_last(), h), with_usage(parsed.last(), h))
    }
}

/// The usage records after a launch of `name` was recorded with `count` at `now`.
pub open spec fn recorded(
    h: Map<Seq<char>, HeatmapEntry>,
    name: Seq<char>,
    count: u32,
    now: u64,
) -> Map<Seq<char>, HeatmapEntry> {
    h.insert(name, HeatmapEntry { count, last_used: now })
}

/// Catalogue entries keyed by name.
pub struct Catalogue {
    entries: Vec<AppEntry>,
}

impl Catalogue {
    pub closed spec fn view(&self) -> Seq<EntryView> {
        entry_views(self.entries@)
    }

    pub open spec fn wf(&self) -> bool {
        unique_names(entry_names(self.view()))
    }

    pub fn new() -> (r: Catalogue)
        ensures
            r.wf(),
            r.view() == Seq::<EntryView>::empty(),
    {
        let r = Catalogue { entries: Vec::new() };
        assert(r.view() =~= Seq::<EntryView>::empty());
        r
    }

    /// The entries in catalogue order.
    pub fn entries(&self) -> (r: &Vec<AppEntry>)
        ensures
            entry_views(r@) == self.view(),
    {
        &self.entries
    }

    pub fn len(&self) -> (r: usize)
        ensures
            r == self.view().len(),
    {
        self.entries.len()
    }

    fn find(&self, name: &str) -> (r: Option<usize>)
        requires
            self.wf(),
        ensures
            match r {
                Some(i) => i < self.view().len() && self.view()[i as int].name == name@ && i
                    == name_index(entry_names(self.view()), name@) && has_name(
                    entry_names(self.view()),
                    name@,
                ),
                None => !has_name(entry_names(self.view()), name@),
            },
    {
        let mut i: usize = 0;
        while i < self.entries.len()
            invariant
                self.wf(),
                i <= self.entries.len(),
                forall|j: int| 0 <= j < i ==> entry_names(self.view())[j] != name@,
            decreases self.entries.len() - i,
        {
            if str_eq(self.entries[i].name.as_str(), name) {
                proof {
                    assert(entry_names(self.view())[i as int] == name@);
                    lemma_name_index(entry_names(self.view()), i as int);
                }
                return Some(i);
            }
            i += 1;
        }
        None
    }

    /// Adds an entry; an entry of the same name is replaced (last write wins).
    pub fn insert(&mut self, e: AppEntry)
        requires
            old(self).wf(),
        ensures
            final(self).wf(),
            final(self).view() == catalogue_insert(old(self).view(), e@),
    {
        let ghost old_view = self.view();
        let ghost ev = e@;
        match self.find(e.name.as_str()) {
            Some(i) => {
                self.entries.set(i, e);
                assert(self.view() =~= old_view.update(i as int, ev));
                assert(entry_names(self.view()) =~= entry_names(old_view));
            },
            None => {
                self.entries.push(e);
                assert(self.view() =~= old_view.push(ev));
                assert(entry_names(self.view()) =~= entry_names(old_view).push(ev.name));
            },
        }
    }

    /// Sets the usage fields of the entry called `name`, if there is one.
    pub fn update_after_launch(&mut self, name: &str, count: u32, now: u64)
        requires
            old(self).wf(),
        ensures
            final(self).wf(),
            final(self).view() == launched(old(self).view(), name@, count, now),
    {
        let ghost old_view = self.view();
        match self.find(name) {
            Some(i) => {
                let mut e = self.entries[i].duplicate();
                e.launch_count = count;
                e.last_used = Some(now);
                self.entries.set(i, e);
                assert(self.view() =~= old_view.update(i as int, with_launch(old_view[i as int], count, now)));
                assert(entry_names(self.view()) =~= entry_names(old_view));
            },
            None => {},
        }
    }
}

/// Sets the usage record of `name` to `count` launches, the last at `now`.
pub fn update_heatmap(heatmap: &mut Heatmap, name: &str, count: u32, now: u64)
    requires
        old(heatmap).wf(),
    ensures
        final(heatmap).wf(),
        final(heatmap).view() == recorded(old(heatmap).view(), name@, count, now),
{
    heatmap.insert(name, HeatmapEntry { count, last_used: now });
}

/// Records a launch of `app` at `now`: its count becomes one more than the entry holds, in the
/// catalogue and in the usage records. Returns the new count.
pub fn increment_launch_count(
    app: &AppEntry,
    now: u64,
    catalogue: &mut Catalogue,
    heatmap: &mut Heatmap,
) -> (r: u32)
    requires
        app.launch_count < u32::MAX,
        old(catalogue).wf(),
        old(heatmap).wf(),
    ensures
        r == app.launch_count + 1,
        final(catalogue).wf(),
        final(heatmap).wf(),
        final(catalogue).view() == launched(old(catalogue).view(), app.name@, r, now),
        final(heatmap).view() == recorded(old(heatmap).view(), app.name@, r, now),
{
    let count = app.launch_count + 1;
    catalogue.update_after_launch(app.name.as_str(), count, now);
    update_heatmap(heatmap, app.name.as_str(), count, now);
    count
}

/// Builds the catalogue from parsed entries, in order, joined with their usage records; of two
/// entries with one name the later wins.
pub fn load_applications(parsed: Vec<AppEntry>, heatmap: &Heatmap) -> (r: Catalogue)
    requires
        heatmap.wf(),
    ensures
        r.wf(),
        r.view() == reloaded(entry_views(parsed@), heatmap.view()),
{
    let mut cat = Catalogue::new();
    let mut i: usize = 0;
    while i < parsed.len()
        invariant
            i <= parsed.len(),
            heatmap.wf(),
            cat.wf(),
            cat.view() == reloaded(entry_views(parsed@).subrange(0, i as int), heatmap.view()),
        decreases parsed.len() - i,
    {
        let ghost pre = entry_views(parsed@).subrange(0, i as int);
        assert(entry_views(parsed@).subrange(0, i + 1).drop_last() =~= pre);
        let mut e = parsed[i].duplicate();
        match heatmap.get(e.name.as_str()) {
            Some(h) => {
                e.launch_count = h.count;
                e.last_used = Some(h.last_used);
            },
            None => {},
        }
        cat.insert(e);
        i += 1;
    }
    assert(entry_views(parsed@).subrange(0, parsed.len() as int) =~= entry_views(parsed@));
    cat
}

proof fn lemma_insert_keeps(c: Seq<EntryView>, e: EntryView, h: Map<Seq<char>, HeatmapEntry>)
    requires
        unique_names(entry_names(c)),
        forall|i: int|
            0 <= i < c.len() && h.contains_key(#[trigger] c[i].name) ==> c[i].launch_count
                == h[c[i].name].count,
        h.contains_key(e.name) ==> e.launch_count == h[e.name].count,
    ensures
        unique_names(entry_names(catalogue_insert(c, e))),
        forall|i: int|
            0 <= i < catalogue_insert(c, e).len() && h.contains_key(
                #[trigger] catalogue_insert(c, e)[i].name,
            ) ==> catalogue_insert(c, e)[i].launch_count == h[catalogue_insert(c, e)[i].name].count,
        forall|n: Seq<char>|
            #[trigger] has_name(entry_names(catalogue_insert(c, e)), n) <==> (has_name(
                entry_names(c),
                n,
            ) || n == e.name),
{
    let names = entry_names(c);
    let r = catalogue_insert(c, e);
    if has_name(names, e.name) {
        let k = name_index(names, e.name);
        assert(entry_names(r) =~= names.update(k, e.name));
        assert forall|n: Seq<char>| #[trigger] has_name(entry_names(r), n) <==> (has_name(names, n) || n == e.name) by {
            if has_name(names, n) {
                let j = choose|j: int| 0 <= j < names.len() && names[j] == n;
                if j == k {
                    assert(entry_names(r)[k] == e.name);
                } else {
                    assert(entry_names(r)[j] == n);
                }
            }
            if n == e.name {
                assert(entry_names(r)[k] == n);
            }
            if has_name(entry_names(r), n) {
                let j = choose|j: int| 0 <= j < entry_names(r).len() && entry_names(r)[j] == n;
                if j != k {
                    assert(names[j] == n);
                }
            }
        }
    } else {
        assert(entry_names(r) =~= names.push(e.name));
        assert forall|n: Seq<char>| #[trigger] has_name(entry_names(r), n) <==> (has_name(names, n) || n == e.name) by {
            if has_name(names, n) {
                let j = choose|j: int| 0 <= j < names.len() && names[j] == n;
                assert(entry_names(r)[j] == n);
            }
            if n == e.name {
                assert(entry_names(r)[names.len() as int] == n);
            }
            if has_name(entry_names(r), n) {
                let j = choose|j: int| 0 <= j < entry_names(r).len() && entry_names(r)[j] == n;
                if j < names.len() {
                    assert(names[j] == n);
                }
            }
        }
    }
}

/// Every entry of a reloaded catalogue carries the launch count of its usage record, names stay
/// unique, and exactly the parsed names are present.
pub proof fn lemma_reloaded(parsed: Seq<EntryView>, h: Map<Seq<char>, HeatmapEntry>)
    ensures
        unique_names(entry_names(reloaded(parsed, h))),
        forall|i: int|
            0 <= i < reloaded(parsed, h).len() && h.contains_key(#[trigger] reloaded(parsed, h)[i].name)
                ==> reloaded(parsed, h)[i].launch_count == h[reloaded(parsed, h)[i].name].count,
        forall|n: Seq<char>|
            #[trigger] has_name(entry_names(reloaded(parsed, h)), n) <==> has_name(
                entry_names(parsed),
                n,
            ),
    decreases parsed.len(),
{
    if parsed.len() > 0 {
        let pre = parsed.drop_last();
        lemma_reloaded(pre, h);
        let e = with_usage(parsed.last(), h);
        lemma_insert_keeps(reloaded(pre, h), e, h);
        assert forall|n: Seq<char>| #[trigger] has_name(entry_names(parsed), n) <==> (has_name(entry_names(pre), n) || n == e.name) by {
            assert(entry_names(parsed) =~= entry_names(pre).push(e.name));
            if has_name(entry_names(parsed), n) {
                let j = choose|j: int| 0 <= j < entry_names(parsed).len() && entry_names(parsed)[j] == n;
                if j < pre.len() {
                    assert(entry_names(pre)[j] == n);
                }
            }
            if has_name(entry_names(pre), n) {
                let j = choose|j: int| 0 <= j < entry_names(pre).len() && entry_names(pre)[j] == n;
                assert(entry_names(parsed)[j] == n);
            }
            if n == e.name {
                assert(entry_names(parsed)[pre.len() as int] == n);
            }
        }
    } else {
        assert(entry_names(reloaded(parsed, h)) =~= Seq::<Seq<char>>::empty());
    }
}

/// Launch counts survive a restart: recording a launch of a name that has no usage record
/// creates one with count 1; recording another launch of the entry as the catalogue then holds
/// it raises the count to 2 and moves the last-used time forward; a catalogue rebuilt from freshly
/// parsed entries that include the name shows count 2 for it.
pub proof fn lemma_launch_count_survives_reload(
    cat: Seq<EntryView>,
    heat: Map<Seq<char>, HeatmapEntry>,
    name: Seq<char>,
    parsed: Seq<EntryView>,
    t1: u64,
    t2: u64,
)
    requires
        unique_names(entry_names(cat)),
        has_name(entry_names(cat), name),
        cat[name_index(entry_names(cat), name)].launch_count == 0,
        !heat.contains_key(name),
        t1 < t2,
        has_name(entry_names(parsed), name),
    ensures
        ({
            let i = name_index(entry_names(cat), name);
            let c1 = launched(cat, name, (cat[i].launch_count + 1) as u32, t1);
            let h1 = recorded(heat, name, (cat[i].launch_count + 1) as u32, t1);
            let c2 = launched(c1, name, (c1[i].launch_count + 1) as u32, t2);
            let h2 = recorded(h1, name, (c1[i].launch_count + 1) as u32, t2);
            let r = reloaded(parsed, h2);
            &&& h1[name].count == 1
            &&& h2[name].count == 2
            &&& h2[name].last_used > h1[name].last_used
            &&& c2[i].launch_count == 2
            &&& has_name(entry_names(r), name)
            &&& forall|j: int| 0 <= j < r.len() && r[j].name == name ==> r[j].launch_count == 2
        }),
{
    let i = name_index(entry_names(cat), name);
    let c1 = launched(cat, name, (cat[i].launch_count + 1) as u32, t1);
    assert(entry_names(c1) =~= entry_names(cat));
    let h1 = recorded(heat, name, (cat[i].launch_count + 1) as u32, t1);
    let h2 = recorded(h1, name, (c1[i].launch_count + 1) as u32, t2);
    lemma_reloaded(parsed, h2);
}

} // verus!
