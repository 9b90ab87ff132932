//! Where descriptors and the usage file live.
use crate::text::{concat, opt_view, pieces, split_pieces, views};
use vstd::prelude::*;

verus! {

/// A path with a leading `~` (alone or before `/`) replaced by the home directory, when known.
pub open spec fn tilde_expanded(p: Seq<char>, home: Option<Seq<char>>) -> Seq<char> {
    if p.len() > 0 && p[0] == '~' && (p.len() == 1 || p[1] == '/') && home is Some {
        home->0 + p.drop_first()
    } else {
        p
    }
}

/// Relies on `shellexpand::tilde_with_context`: `~` or a leading `~/` becomes the home
/// directory given; other input, or no home directory, is returned unchanged.
#[verifier::external_body]
pub(crate) fn expand_tilde(path: &str, home: &Option<String>) -> (r: String)
    ensures
        r@ == tilde_expanded(path@, opt_view(*home)),
{
    shellexpand::tilde_with_context(path, || home.as_ref()).into_owned()
}

/// The usage file, before tilde expansion.
pub const HEATMAP_PATH: &'static str = "~/.local/share/hyprlauncher/heatmap.toml";

/// The usage file's location for a home directory.
pub fn heatmap_path(home: &Option<String>) -> (r: String)
    ensures
        r@ == tilde_expanded(HEATMAP_PATH@, opt_view(*home)),
{
    expand_tilde(HEATMAP_PATH, home)
}

/// The fixed scan locations, before tilde expansion.
pub open spec fn fixed_desktop_paths() -> Seq<Seq<char>> {
    seq![
        "/usr/share/applications"@,
        "/usr/local/share/applications"@,
        "/var/lib/flatpak/exports/share/applications"@,
        "~/.local/share/applications"@,
        "~/.local/share/flatpak/exports/share/applications"@,
    ]
}

/// The descriptor directories: `applications` under each data directory of the
/// colon-separated list, then the fixed locations with `~` expanded.
pub open spec fn desktop_paths(xdg_data_dirs: Option<Seq<char>>, home: Option<Seq<char>>) -> Seq<
    Seq<char>,
> {
    (match xdg_data_dirs {
        Some(d) => pieces(d, Some(':')).map_values(|x: Seq<char>| x + "/applications"@),
        None => Seq::empty(),
    }) + fixed_desktop_paths().map_values(|p: Seq<char>| tilde_expanded(p, home))
}

/// The directories scanned for descriptors (see `desktop_paths`).
pub fn get_desktop_paths(xdg_data_dirs: &Option<String>, home: &Option<String>) -> (r: Vec<String>)
    ensures
        views(r@) == desktop_paths(opt_view(*xdg_data_dirs), opt_view(*home)),
{
    let mut paths: Vec<String> = Vec::new();
    match xdg_data_dirs {
        Some(d) => {
            let dirs = split_pieces(d.as_str(), Some(':'));
            let mut i: usize = 0;
            while i < dirs.len()
                invariant
                    i <= dirs.len(),
                    views(paths@) == views(dirs@).subrange(0, i as int).map_values(
                        |x: Seq<char>| x + "/applications"@,
                    ),
                decreases dirs.len() - i,
            {
                let ghost b = views(paths@);
                let p = concat(dirs[i].as_str(), "/applications");
                paths.push(p);
                assert(views(paths@) =~= b.push(p@));
                assert(views(dirs@).subrange(0, i + 1).map_values(|x: Seq<char>| x + "/applications"@) =~= views(dirs@).subrange(0, i as int).map_values(|x: Seq<char>| x + "/applications"@).push(dirs@[i as int]@ + "/applications"@));
                i += 1;
            }
            assert(views(dirs@).subrange(0, dirs.len() as int) =~= views(dirs@));
        },
        None => {
            assert(views(paths@) =~= Seq::<Seq<char>>::empty());
        },
    }
    let ghost head = views(paths@);
    let fixed = [
        "/usr/share/applications",
        "/usr/local/share/applications",
        "/var/lib/flatpak/exports/share/applications",
        "~/.local/share/applications",
        "~/.local/share/flatpak/exports/share/applications",
    ];
    let mut k: usize = 0;
    while k < 5
        invariant
            k <= 5,
            fixed@ == seq![
                "/usr/share/applications",
                "/usr/local/share/applications",
                "/var/lib/flatpak/exports/share/applications",
                "~/.local/share/applications",
                "~/.local/share/flatpak/exports/share/applications",
            ],
            views(paths@) == head + fixed_desktop_paths().subrange(0, k as int).map_values(
                |p: Seq<char>| tilde_expanded(p, opt_view(*home)),
            ),
        decreases 5 - k,
    {
        let ghost b = views(paths@);
        let p = expand_tilde(fixed[k], home);
        paths.push(p);
        assert(views(paths@) =~= b.push(p@));
        assert(fixed_desktop_paths()[k as int] == fixed@[k as int]@);
        assert(fixed_desktop_paths().subrange(0, k + 1).map_values(|p: Seq<char>| tilde_expanded(p, opt_view(*home))) =~= fixed_desktop_paths().subrange(0, k as int).map_values(|p: Seq<char>| tilde_expanded(p, opt_view(*home))).push(tilde_expanded(fixed@[k as int]@, opt_view(*home))));
        k += 1;
    }
    assert(fixed_desktop_paths().subrange(0, 5) =~= fixed_desktop_paths());
    paths
}

} // verus!
