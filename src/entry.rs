//! Catalogue entries: applications, their actions and filesystem objects.
use crate::text::{chars_of, joined, pieces, split_pieces, join_strings, views};
use vstd::prelude::*;

verus! {

/// The icon that stands for "no specific icon".
pub const GENERIC_ICON: &'static str = "application-x-executable";

/// A sub-launcher of a descriptor ("New Window").
#[derive(Clone, Debug)]
pub struct DesktopAction {
    pub name: String,
    pub command: String,
    pub icon_name: Option<String>,
}

/// How a selected entry is launched.
#[derive(Clone, Copy, Debug, PartialEq, Eq, Structural)]
pub enum EntryType {
    Application,
    File,
}

/// One indexable thing: an application launcher or a filesystem object.
#[derive(Clone, Debug)]
pub struct AppEntry {
    pub name: String,
    pub description: String,
    pub path: String,
    pub command: String,
    pub icon_name: String,
    pub launch_count: u32,
    pub last_used: Option<u64>,
    pub entry_type: EntryType,
    pub score_boost: i64,
    pub keywords: Vec<String>,
    pub categories: Vec<String>,
    pub terminal: bool,
    pub actions: Vec<DesktopAction>,
}

/// The mathematical value of an action.
pub ghost struct ActionView {
    pub name: Seq<char>,
    pub command: Seq<char>,
    pub icon_name: Option<Seq<char>>,
}

impl View for DesktopAction {
    type V = ActionView;

    open spec fn view(&self) -> ActionView {
        ActionView {
            name: self.name@,
            command: self.command@,
            icon_name: match self.icon_name {
                Some(i) => Some(i@),
                None => None,
            },
        }
    }
}

/// The views of a list of actions.
pub open spec fn action_views(v: Seq<DesktopAction>) -> Seq<ActionView> {
    v.map_values(|a: DesktopAction| a@)
}

/// The mathematical value of an entry: its strings as character sequences.
pub ghost struct EntryView {
    pub name: Seq<char>,
    pub description: Seq<char>,
    pub path: Seq<char>,
    pub command: Seq<char>,
    pub icon_name: Seq<char>,
    pub launch_count: u32,
    pub last_used: Option<u64>,
    pub entry_type: EntryType,
    pub score_boost: i64,
    pub keywords: Seq<Seq<char>>,
    pub categories: Seq<Seq<char>>,
    pub terminal: bool,
    pub actions: Seq<ActionView>,
}

impl View for AppEntry {
    type V = EntryView;

    open spec fn view(&self) -> EntryView {
        EntryView {
            name: self.name@,
            description: self.description@,
            path: self.path@,
            command: self.command@,
            icon_name: self.icon_name@,
            launch_count: self.launch_count,
            last_used: self.last_used,
            entry_type: self.entry_type,
            score_boost: self.score_boost,
            keywords: views(self.keywords@),
            categories: views(self.categories@),
            terminal: self.terminal,
            actions: action_views(self.actions@),
        }
    }
}

/// A fresh list equal to `v`.
pub fn copy_strings(v: &Vec<String>) -> (r: Vec<String>)
    ensures
        r@ == v@,
{
    let mut r: Vec<String> = Vec::new();
    let mut i: usize = 0;
    while i < v.len()
        invariant
            i <= v.len(),
            r@ == v@.subrange(0, i as int),
        decreases v.len() - i,
    {
        r.push(v[i].clone());
        i += 1;
    }
    assert(r@ =~= v@);
    r
}

fn copy_option(o: &Option<String>) -> (r: Option<String>)
    ensures
        r == *o,
{
    match o {
        Some(s) => Some(s.clone()),
        None => None,
    }
}

impl DesktopAction {
    /// A fresh action equal to this one.
    pub fn duplicate(&self) -> (r: DesktopAction)
        ensures
            r == *self,
            r@ == self@,
    {
        DesktopAction {
            name: self.name.clone(),
            command: self.command.clone(),
            icon_name: copy_option(&self.icon_name),
        }
    }
}

fn copy_actions(v: &Vec<DesktopAction>) -> (r: Vec<DesktopAction>)
    ensures
        r@ == v@,
{
    let mut r: Vec<DesktopAction> = Vec::new();
    let mut i: usize = 0;
    while i < v.len()
        invariant
            i <= v.len(),
            r@ == v@.subrange(0, i as int),
        decreases v.len() - i,
    {
        r.push(v[i].duplicate());
        i += 1;
    }
    assert(r@ =~= v@);
    r
}

impl AppEntry {
    /// A fresh entry equal to this one.
    pub fn duplicate(&self) -> (r: AppEntry)
        ensures
            r@ == self@,
    {
        AppEntry {
            name: self.name.clone(),
            description: self.description.clone(),
            path: self.path.clone(),
            command: self.command.clone(),
            icon_name: self.icon_name.clone(),
            launch_count: self.launch_count,
            last_used: self.last_used,
            entry_type: self.entry_type,
            score_boost: self.score_boost,
            keywords: copy_strings(&self.keywords),
            categories: copy_strings(&self.categories),
            terminal: self.terminal,
            actions: copy_actions(&self.actions),
        }
    }
}

/// A desktop-file field code: a whitespace-separated token that starts with `%`.
pub open spec fn is_field_code(w: Seq<char>) -> bool {
    w.len() > 0 && w[0] == '%'
}

/// A command line with its field codes removed and its tokens joined by single spaces.
pub open spec fn stripped_command(exec: Seq<char>) -> Seq<char> {
    joined(pieces(exec, None).filter(|w: Seq<char>| !is_field_code(w)), seq![' '])
}

/// Removes `%`-placeholders from a command line: splits it on whitespace, drops every token
/// that starts with `%` and joins the rest with single spaces.
pub fn strip_field_codes(exec: &str) -> (r: String)
    ensures
        r@ == stripped_command(exec@),
{
    let words = split_pieces(exec, None);
    let mut kept: Vec<String> = Vec::new();
    let mut i: usize = 0;
    while i < words.len()
        invariant
            i <= words.len(),
            views(words@) == pieces(exec@, None),
            views(kept@) == views(words@).subrange(0, i as int).filter(
                |w: Seq<char>| !is_field_code(w),
            ),
        decreases words.len() - i,
    {
        let ghost pre = views(words@).subrange(0, i as int);
        assert(views(words@).subrange(0, i + 1) =~= pre.push(words@[i as int]@));
        proof {
            pre.lemma_filter_push(words@[i as int]@, |w: Seq<char>| !is_field_code(w));
        }
        let w = &words[i];
        let wc = chars_of(w.as_str());
        let code = wc.len() > 0 && wc[0] == '%';
        if !code {
            let ghost before = kept@;
            kept.push(w.clone());
            assert(views(kept@) =~= views(before).push(w@));
        }
        i += 1;
    }
    assert(views(words@).subrange(0, words.len() as int) =~= views(words@));
    let sep = " ";
    proof {
        reveal_strlit(" ");
    }
    assert(sep@ =~= seq![' ']);
    join_strings(&kept, sep)
}

} // verus!
