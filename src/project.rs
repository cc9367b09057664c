//! A project on disk: its options, and where it lies within the root
//! directory that is served.

use vstd::prelude::*;
use vstd::string::*;
use crate::util::{has_prefix, starts_with};

verus! {

/// Where a project lies, and whether its files are watched.
#[derive(Clone, Debug, PartialEq, Eq)]
pub struct ProjectOptions {
    pub root_path: String,
    pub project_path: String,
    pub watch: bool,
}

/// Options for listing a project's routes.
#[derive(Clone, Debug, PartialEq, Eq)]
pub struct RoutesOptions {
    pub page_extensions: Vec<String>,
}

/// `s` with every `separator` turned into `/`.
pub open spec fn with_slashes(s: Seq<char>, separator: char) -> Seq<char> {
    s.map_values(|c: char| if c == separator { '/' } else { c })
}

/// The project's path relative to the root, with `/` between segments: the
/// root is cut off the front, then one leading separator if there is one.
pub open spec fn relative_project_path(root: Seq<char>, project: Seq<char>, separator: char) -> Seq<
    char,
> {
    let rest = project.subrange(root.len() as int, project.len() as int);
    let rest = if rest.len() > 0 && rest[0] == separator {
        rest.subrange(1, rest.len() as int)
    } else {
        rest
    };
    with_slashes(rest, separator)
}

/// The path of the project within the root directory, as the file system of
/// the root names it. The project must lie within the root.
pub fn project_relative_path(root_path: &str, project_path: &str, separator: char) -> (r: String)
    requires
        starts_with(project_path@, root_path@),
    ensures
        r@ == relative_project_path(root_path@, project_path@, separator),
{
    let n = project_path.unicode_len();
    let mut i = root_path.unicode_len();
    if i < n && project_path.get_char(i) == separator {
        i = i + 1;
    }
    let ghost start = i as int;
    let ghost rest = project_path@.subrange(start, n as int);
    proof {
        let full = project_path@.subrange(root_path@.len() as int, n as int);
        if full.len() > 0 && full[0] == separator {
            assert(full.subrange(1, full.len() as int) =~= rest);
        } else {
            assert(full =~= rest);
        }
    }
    let mut out = String::new();
    while i < n
        invariant
            n == project_path@.len(),
            0 <= start <= i <= n,
            rest == project_path@.subrange(start, n as int),
            out@ == with_slashes(project_path@.subrange(start, i as int), separator),
        decreases n - i,
    {
        let c = project_path.get_char(i);
        let ghost before = out@;
        if c == separator {
            out = out.concat("/");
            proof {
                reveal_strlit("/");
            }
        } else {
            let piece = project_path.substring_char(i, i + 1);
            assert(piece@ =~= seq![c]);
            out = out.concat(piece);
        }
        assert(out@ =~= with_slashes(project_path@.subrange(start, i + 1), separator));
        i = i + 1;
    }
    assert(project_path@.subrange(start, n as int) =~= rest);
    out
}

} // verus!
