//! Application launching decisions: telling a path from an application
//! name, parsing scanned launcher entries with the system-app filter, and
//! picking the best match for a name among the scanned applications. The
//! directory scans and the process spawning live at the edge.

use vstd::prelude::*;

use crate::text::{
    ends_with_spec, has_substr_spec, starts_with_spec, str_contains, str_contains_char, str_eq,
    str_ends_with, str_starts_with,
};
use crate::unicode::{lower_of, lowercase};

verus! {

/// One launchable application found by the scan.
pub struct AppInfo {
    pub name: String,
    pub path: String,
    pub icon: Option<String>,
    pub description: Option<String>,
}

/// A launch target that is a filesystem path rather than an application
/// name: it holds a path separator or a drive colon, or names an
/// executable or a shortcut file. (Whether the path exists on disk is the
/// edge's extra check.)
pub open spec fn looks_like_path_spec(s: Seq<char>) -> bool {
    ||| s.contains('/')
    ||| s.contains('\\')
    ||| s.contains(':')
    ||| ends_with_spec(s, ".exe"@)
    ||| ends_with_spec(s, ".lnk"@)
}

/// Decide whether a launch target is a path.
pub fn looks_like_path(s: &str) -> (r: bool)
    ensures
        r == looks_like_path_spec(s@),
{
    str_contains_char(s, '/') || str_contains_char(s, '\\') || str_contains_char(s, ':')
        || str_ends_with(s, ".exe") || str_ends_with(s, ".lnk")
}

/// A URL the popup flow accepts: plain web schemes only.
pub fn is_web_url(url: &str) -> (r: bool)
    ensures
        r == (starts_with_spec(url@, "http://"@) || starts_with_spec(url@, "https://"@)),
{
    str_starts_with(url, "http://") || str_starts_with(url, "https://")
}

/// A case-folded entry name the system-app filter drops: uninstallers,
/// installers, the browser bundled with the platform, and the platform's
/// own security surfaces.
pub open spec fn is_system_app_name(l: Seq<char>) -> bool {
    ||| has_substr_spec(l, "uninstall"@)
    ||| has_substr_spec(l, "setup"@)
    ||| has_substr_spec(l, "installer"@)
    ||| (starts_with_spec(l, "microsoft"@) && has_substr_spec(l, "edge"@))
    ||| l == "windows defender"@
    ||| l == "windows security"@
}

/// Turn one scanned entry (its stem name and full path) into an
/// application record, dropping system entries when the filter is on.
pub fn parse_app_entry(name: &str, path: &str, filter_system: bool) -> (r: Option<AppInfo>)
    ensures
        match r {
            Some(app) => {
                &&& !(filter_system && is_system_app_name(lower_of(name@)))
                &&& app.name@ == name@
                &&& app.path@ == path@
                &&& app.icon is None
                &&& app.description is None
            },
            None => filter_system && is_system_app_name(lower_of(name@)),
        },
{
    if filter_system {
        let folded = lowercase(name);
        let l = folded.as_str();
        let drop_it = str_contains(l, "uninstall") || str_contains(l, "setup") || str_contains(
            l,
            "installer",
        ) || (str_starts_with(l, "microsoft") && str_contains(l, "edge")) || str_eq(
            l,
            "windows defender",
        ) || str_eq(l, "windows security");
        if drop_it {
            return None;
        }
    }
    Some(
        AppInfo {
            name: String::from_str(name),
            path: String::from_str(path),
            icon: None,
            description: None,
        },
    )
}

/// The path of the first application whose folded name reads exactly the
/// folded query.
pub open spec fn find_exact(apps: Seq<AppInfo>, query: Seq<char>) -> Option<Seq<char>>
    decreases apps.len(),
{
    if apps.len() == 0 {
        Option::None
    } else if lower_of(apps[0].name@) == query {
        Option::Some(apps[0].path@)
    } else {
        find_exact(apps.drop_first(), query)
    }
}

/// The path of the first application whose folded name contains the
/// folded query, or is contained in it.
pub open spec fn find_partial(apps: Seq<AppInfo>, query: Seq<char>) -> Option<Seq<char>>
    decreases apps.len(),
{
    if apps.len() == 0 {
        Option::None
    } else if has_substr_spec(lower_of(apps[0].name@), query) || has_substr_spec(
        query,
        lower_of(apps[0].name@),
    ) {
        Option::Some(apps[0].path@)
    } else {
        find_partial(apps.drop_first(), query)
    }
}

/// Find the best match for an application name, case folded: an exact
/// name match wins; otherwise the first name that contains the query or
/// is contained in it.
pub fn find_app_by_name(apps: &Vec<AppInfo>, name: &str) -> (r: Option<String>)
    ensures
        match r {
            Some(p) => match find_exact(apps@, lower_of(name@)) {
                Option::Some(e) => p@ == e,
                Option::None => find_partial(apps@, lower_of(name@)) == Some(p@),
            },
            None => find_exact(apps@, lower_of(name@)) is None && find_partial(
                apps@,
                lower_of(name@),
            ) is None,
        },
{
    let query = lowercase(name);
    let ghost q = lower_of(name@);
    let mut partial: Option<String> = None;
    proof {
        assert(apps@.skip(0) =~= apps@);
    }
    let mut i: usize = 0;
    while i < apps.len()
        invariant
            0 <= i <= apps@.len(),
            q == lower_of(name@),
            query@ == q,
            find_exact(apps@, q) == find_exact(apps@.skip(i as int), q),
            match partial {
                Option::Some(pp) => find_partial(apps@, q) == Some(pp@),
                Option::None => find_partial(apps@, q) == find_partial(apps@.skip(i as int), q),
            },
        decreases apps@.len() - i,
    {
        let folded = lowercase(apps[i].name.as_str());
        proof {
            assert(apps@.skip(i as int)[0] == apps@[i as int]);
        }
        if str_eq(folded.as_str(), query.as_str()) {
            let p = apps[i].path.clone();
            return Some(p);
        }
        let is_partial = str_contains(folded.as_str(), query.as_str()) || str_contains(
            query.as_str(),
            folded.as_str(),
        );
        let ghost partial_pre = partial;
        if is_partial {
            let already = match &partial {
                Some(_) => true,
                None => false,
            };
            if !already {
                let p = apps[i].path.clone();
                partial = Some(p);
            }
        }
        proof {
            assert(apps@.skip(i as int).drop_first() =~= apps@.skip(i + 1));
            match partial_pre {
                Option::Some(_) => {},
                Option::None => {
                    if is_partial {
                        assert(find_partial(apps@.skip(i as int), q) == Some(
                            apps@[i as int].path@,
                        ));
                    }
                },
            }
        }
        i = i + 1;
    }
    proof {
        assert(apps@.skip(apps@.len() as int).len() == 0);
    }
    partial
}

} // verus!
