//! What launching a selected entry means: the command to run, or the folder to navigate to.
use crate::entry::{AppEntry, EntryType};
use crate::text::{chars_of, concat, is_space, is_whitespace_at, str_eq, string_of};
use vstd::prelude::*;

verus! {

/// `s` with every non-overlapping occurrence of `pat` (scanning left to right) replaced by `w`.
pub open spec fn replaced(s: Seq<char>, pat: Seq<char>, w: Seq<char>) -> Seq<char>
    decreases s.len(),
{
    if s.len() == 0 || pat.len() == 0 {
        s
    } else if pat.len() <= s.len() && s.subrange(0, pat.len() as int) == pat {
        w + replaced(s.subrange(pat.len() as int, s.len() as int), pat, w)
    } else {
        seq![s[0]] + replaced(s.drop_first(), pat, w)
    }
}

/// `s` without leading whitespace.
pub open spec fn trim_start(s: Seq<char>) -> Seq<char>
    decreases s.len(),
{
    if s.len() > 0 && is_space(s[0]) {
        trim_start(s.drop_first())
    } else {
        s
    }
}

/// `s` without trailing whitespace.
pub open spec fn trim_end(s: Seq<char>) -> Seq<char>
    decreases s.len(),
{
    if s.len() > 0 && is_space(s.last()) {
        trim_end(s.drop_last())
    } else {
        s
    }
}

/// `s` without leading or trailing whitespace.
pub open spec fn trimmed(s: Seq<char>) -> Seq<char> {
    trim_end(trim_start(s))
}

fn chars_equal_at(v: &Vec<char>, start: usize, p: &Vec<char>) -> (r: bool)
    requires
        start + p.len() <= v.len(),
    ensures
        r == (v@.subrange(start as int, start + p.len()) == p@),
{
    let mut j: usize = 0;
    while j < p.len()
        invariant
            start + p.len() <= v.len(),
            j <= p.len(),
            forall|k: int| 0 <= k < j ==> v@[start + k] == p@[k],
        decreases p.len() - j,
    {
        if v[start + j] != p[j] {
            assert(v@.subrange(start as int, start + p.len())[j as int] != p@[j as int]);
            return false;
        }
        j += 1;
    }
    assert(v@.subrange(start as int, start + p.len()) =~= p@);
    true
}

/// Replaces every occurrence of `pat` in `s` by `w` (see `replaced`).
pub fn replace_all(s: &str, pat: &str, w: &str) -> (r: String)
    ensures
        r@ == replaced(s@, pat@, w@),
{
    let v = chars_of(s);
    let p = chars_of(pat);
    let x = chars_of(w);
    if p.len() == 0 {
        return string_of(&v);
    }
    let mut out: Vec<char> = Vec::new();
    let mut i: usize = 0;
    assert(v@.subrange(0, v.len() as int) =~= v@);
    assert(out@ + replaced(s@, pat@, w@) =~= replaced(s@, pat@, w@));
    while i < v.len()
        invariant
            v@ == s@,
            p@ == pat@,
            x@ == w@,
            p.len() > 0,
            i <= v.len(),
            replaced(s@, pat@, w@) == out@ + replaced(v@.subrange(i as int, v.len() as int), pat@, w@),
        decreases v.len() - i,
    {
        let ghost rest = v@.subrange(i as int, v.len() as int);
        if p.len() <= v.len() - i && chars_equal_at(&v, i, &p) {
            assert(rest.subrange(0, p.len() as int) =~= v@.subrange(i as int, i + p.len()));
            assert(rest.subrange(p.len() as int, rest.len() as int) =~= v@.subrange(i + p.len(), v.len() as int));
            let ghost before = out@;
            let mut k: usize = 0;
            while k < x.len()
                invariant
                    k <= x.len(),
                    out@ == before + x@.subrange(0, k as int),
                decreases x.len() - k,
            {
                out.push(x[k]);
                k += 1;
            }
            assert(x@.subrange(0, x.len() as int) =~= x@);
            assert(out@ + replaced(v@.subrange(i + p.len(), v.len() as int), pat@, w@) =~= before + (w@ + replaced(v@.subrange(i + p.len(), v.len() as int), pat@, w@)));
            i += p.len();
        } else {
            if p.len() <= v.len() - i {
                assert(rest.subrange(0, p.len() as int) =~= v@.subrange(i as int, i + p.len()));
            }
            assert(rest.drop_first() =~= v@.subrange(i + 1, v.len() as int));
            assert(rest[0] == v@[i as int]);
            let ghost before = out@;
            out.push(v[i]);
            assert(out@ + replaced(v@.subrange(i + 1, v.len() as int), pat@, w@) =~= before + (seq![v@[i as int]] + replaced(v@.subrange(i + 1, v.len() as int), pat@, w@)));
            i += 1;
        }
    }
    assert(out@ + replaced(v@.subrange(v.len() as int, v.len() as int), pat@, w@) =~= out@);
    string_of(&out)
}

/// `s` without leading or trailing whitespace.
pub fn trim(s: &str) -> (r: String)
    ensures
        r@ == trimmed(s@),
{
    let v = chars_of(s);
    let mut a: usize = 0;
    assert(v@.subrange(0, v.len() as int) =~= v@);
    while a < v.len() && is_whitespace_at(&v, a)
        invariant
            v@ == s@,
            a <= v.len(),
            trim_start(s@) == trim_start(v@.subrange(a as int, v.len() as int)),
        decreases v.len() - a,
    {
        assert(v@.subrange(a as int, v.len() as int).drop_first() =~= v@.subrange(a + 1, v.len() as int));
        a += 1;
    }
    assert(trim_start(v@.subrange(a as int, v.len() as int)) == v@.subrange(a as int, v.len() as int));
    let mut b: usize = v.len();
    while b > a && is_whitespace_at(&v, b - 1)
        invariant
            a <= b <= v.len(),
            trim_end(v@.subrange(a as int, v.len() as int)) == trim_end(v@.subrange(a as int, b as int)),
        decreases b,
    {
        assert(v@.subrange(a as int, b as int).drop_last() =~= v@.subrange(a as int, b - 1));
        b -= 1;
    }
    let mut out: Vec<char> = Vec::new();
    let mut k: usize = a;
    while k < b
        invariant
            a <= k <= b <= v.len(),
            out@ == v@.subrange(a as int, k as int),
        decreases b - k,
    {
        out.push(v[k]);
        k += 1;
    }
    assert(trim_end(v@.subrange(a as int, b as int)) == v@.subrange(a as int, b as int));
    string_of(&out)
}

/// What to do with a selected entry.
#[derive(Clone, Debug, PartialEq, Eq)]
pub enum LaunchAction {
    /// Run this command line through the shell.
    Spawn(String),
    /// Put this directory path (ending in `/`) into the search field.
    Navigate(String),
}

/// The command line of an application: file and URL placeholders dropped, `%c` replaced by the
/// entry's name, surrounding whitespace trimmed.
pub open spec fn launch_command(e: Seq<char>, name: Seq<char>) -> Seq<char> {
    trimmed(
        replaced(
            replaced(
                replaced(
                    replaced(
                        replaced(replaced(e, "%f"@, Seq::empty()), "%F"@, Seq::empty()),
                        "%u"@,
                        Seq::empty(),
                    ),
                    "%U"@,
                    Seq::empty(),
                ),
                "%i"@,
                Seq::empty(),
            ),
            "%c"@,
            name,
        ),
    )
}

/// A directory path with a trailing `/`.
pub open spec fn with_slash(p: Seq<char>) -> Seq<char> {
    if p.len() > 0 && p.last() == '/' {
        p
    } else {
        p + "/"@
    }
}

/// Applications run their cleaned command line; folders are navigated into; other files run
/// their command as it is.
pub open spec fn launch_of(e: crate::entry::EntryView) -> (bool, Seq<char>) {
    match e.entry_type {
        EntryType::Application => (true, launch_command(e.command, e.name)),
        EntryType::File => if e.icon_name == "folder"@ {
            (false, with_slash(e.path))
        } else {
            (true, e.command)
        },
    }
}

/// What launching `app` does (see `launch_of`): `Spawn` when the first component is true.
pub fn launch_action(app: &AppEntry) -> (r: LaunchAction)
    ensures
        match r {
            LaunchAction::Spawn(c) => launch_of(app@).0 && c@ == launch_of(app@).1,
            LaunchAction::Navigate(p) => !launch_of(app@).0 && p@ == launch_of(app@).1,
        },
{
    match app.entry_type {
        EntryType::Application => {
            let empty = String::new();
            let c = replace_all(app.command.as_str(), "%f", empty.as_str());
            let c = replace_all(c.as_str(), "%F", empty.as_str());
            let c = replace_all(c.as_str(), "%u", empty.as_str());
            let c = replace_all(c.as_str(), "%U", empty.as_str());
            let c = replace_all(c.as_str(), "%i", empty.as_str());
            let c = replace_all(c.as_str(), "%c", app.name.as_str());
            LaunchAction::Spawn(trim(c.as_str()))
        },
        EntryType::File => {
            if str_eq(app.icon_name.as_str(), "folder") {
                let v = chars_of(app.path.as_str());
                if v.len() > 0 && v[v.len() - 1] == '/' {
                    LaunchAction::Navigate(app.path.clone())
                } else {
                    LaunchAction::Navigate(concat(app.path.as_str(), "/"))
                }
            } else {
                LaunchAction::Spawn(app.command.clone())
            }
        },
    }
}

} // verus!
