//! Path helpers: page pathnames, their asset paths, and the condition that
//! marks foreign (dependency) code.

use vstd::prelude::*;
use vstd::string::*;

verus! {

/// Whether a pathname names a page or its data.
#[derive(Clone, Copy, Debug, PartialEq, Eq, Structural)]
pub enum PathType {
    Page,
    Data,
}

pub open spec fn starts_with(s: Seq<char>, prefix: Seq<char>) -> bool {
    prefix.len() <= s.len() && s.subrange(0, prefix.len() as int) == prefix
}

/// Whether `s` begins with `prefix`.
pub fn has_prefix(s: &str, prefix: &str) -> (r: bool)
    ensures
        r == starts_with(s@, prefix@),
{
    let n = s.unicode_len();
    let m = prefix.unicode_len();
    if m > n {
        return false;
    }
    let mut i: usize = 0;
    while i < m
        invariant
            m == prefix@.len(),
            n == s@.len(),
            m <= n,
            i <= m,
            forall|k: int| 0 <= k < i ==> s@[k] == prefix@[k],
        decreases m - i,
    {
        if s.get_char(i) != prefix.get_char(i) {
            assert(s@.subrange(0, m as int)[i as int] != prefix@[i as int]);
            return false;
        }
        i = i + 1;
    }
    assert(s@.subrange(0, m as int) =~= prefix@);
    true
}

fn same_text(a: &str, b: &str) -> (r: bool)
    ensures
        r == (a@ == b@),
{
    String::from_str(a) == String::from_str(b)
}

/// The asset path of a page pathname: `/` becomes `/index`, and pathnames
/// that already begin with the `/index` segment get one more in front.
pub open spec fn asset_path(pathname: Seq<char>, ext: Seq<char>) -> Seq<char> {
    if pathname == "/"@ {
        "/index"@ + ext
    } else if pathname == "/index"@ || starts_with(pathname, "/index/"@) {
        "/index"@ + pathname + ext
    } else {
        pathname + ext
    }
}

pub fn get_asset_path_from_pathname(pathname: &str, ext: &str) -> (r: String)
    ensures
        r@ == asset_path(pathname@, ext@),
{
    if same_text(pathname, "/") {
        String::from_str("/index").concat(ext)
    } else if same_text(pathname, "/index") || has_prefix(pathname, "/index/") {
        String::from_str("/index").concat(pathname).concat(ext)
    } else {
        String::from_str(pathname).concat(ext)
    }
}

/// The path of `inner` relative to the directory `dir`, both given from the
/// root of one file system without a leading `/`; `None` when `inner` lies
/// outside `dir`.
pub open spec fn path_to(dir: Seq<char>, inner: Seq<char>) -> Option<Seq<char>> {
    if dir.len() == 0 {
        Some(inner)
    } else if inner == dir {
        Some(Seq::empty())
    } else if starts_with(inner, dir + "/"@) {
        Some(inner.subrange(dir.len() as int + 1, inner.len() as int))
    } else {
        None
    }
}

/// The pathname of a file at relative path `rel` in the server root: the
/// root itself is `/index` for data and `/` for pages.
pub open spec fn pathname_of(rel: Seq<char>, path_ty: PathType) -> Seq<char> {
    if path_ty == PathType::Data && rel.len() == 0 {
        "/index"@
    } else {
        "/"@ + rel
    }
}

fn suffix_from(s: &str, from: usize) -> (r: String)
    requires
        from <= s@.len(),
    ensures
        r@ == s@.subrange(from as int, s@.len() as int),
{
    let n = s.unicode_len();
    let mut out = String::new();
    let mut i: usize = from;
    while i < n
        invariant
            n == s@.len(),
            from <= i <= n,
            out@ == s@.subrange(from as int, i as int),
        decreases n - i,
    {
        let c = s.get_char(i);
        let piece = s.substring_char(i, i + 1);
        assert(piece@ =~= seq![c]);
        out = out.concat(piece);
        assert(out@ =~= s@.subrange(from as int, i + 1));
        i = i + 1;
    }
    out
}

/// Converts a file path within the server root into a page pathname; the
/// error names both paths when the file lies outside the root.
pub fn pathname_for_path(server_root: &str, server_path: &str, path_ty: PathType) -> (r: Result<
    String,
    String,
>)
    ensures
        match path_to(server_root@, server_path@) {
            Some(rel) => r is Ok && r->Ok_0@ == pathname_of(rel, path_ty),
            None => r is Err && r->Err_0@ == "server_path ("@ + server_path@
                + ") is not in server_root ("@ + server_root@ + ")"@,
        },
{
    let rel: String;
    if server_root.unicode_len() == 0 {
        rel = String::from_str(server_path);
    } else if same_text(server_root, server_path) {
        rel = String::new();
    } else {
        let dir = String::from_str(server_root).concat("/");
        if has_prefix(server_path, dir.as_str()) {
            let skip = dir.as_str().unicode_len();
            proof {
                reveal_strlit("/");
            }
            rel = suffix_from(server_path, skip);
        } else {
            return Err(
                String::from_str("server_path (").concat(server_path).concat(
                    ") is not in server_root (",
                ).concat(server_root).concat(")"),
            );
        }
    }
    if path_ty == PathType::Data && rel.as_str().unicode_len() == 0 {
        Ok(String::from_str("/index"))
    } else {
        Ok(String::from_str("/").concat(rel.as_str()))
    }
}

/// A condition on where a module lives.
#[derive(Debug, PartialEq, Eq)]
pub enum ContextCondition {
    All(Vec<ContextCondition>),
    Any(Vec<ContextCondition>),
    Not(Box<ContextCondition>),
    InDirectory(String),
}

pub open spec fn in_directory(c: ContextCondition, dir: Seq<char>) -> bool {
    match c {
        ContextCondition::InDirectory(d) => d@ == dir,
        _ => false,
    }
}

/// `c` is `Any` of one `InDirectory("node_modules/<p>")` per package `p`, in order.
pub open spec fn any_package_dir(c: ContextCondition, packages: Seq<Seq<char>>) -> bool {
    match c {
        ContextCondition::Any(cs) => cs@.len() == packages.len() && forall|i: int|
            0 <= i < packages.len() ==> in_directory(
                #[trigger] cs@[i],
                "node_modules/"@ + packages[i],
            ),
        _ => false,
    }
}

/// The condition for code that is not the project's own: anything under
/// `node_modules`, except the packages that are to be transpiled.
pub open spec fn is_foreign_code_condition(c: ContextCondition, packages: Seq<Seq<char>>) -> bool {
    if packages.len() == 0 {
        in_directory(c, "node_modules"@)
    } else {
        match c {
            ContextCondition::All(cs) => cs@.len() == 2 && in_directory(cs@[0], "node_modules"@)
                && match cs@[1] {
                ContextCondition::Not(inner) => any_package_dir(*inner, packages),
                _ => false,
            },
            _ => false,
        }
    }
}

pub fn foreign_code_context_condition(transpile_packages: &Vec<String>) -> (r: ContextCondition)
    ensures
        is_foreign_code_condition(r, transpile_packages@.map_values(|p: String| p@)),
{
    let ghost packages = transpile_packages@.map_values(|p: String| p@);
    if transpile_packages.len() == 0 {
        return ContextCondition::InDirectory(String::from_str("node_modules"));
    }
    let mut dirs: Vec<ContextCondition> = Vec::new();
    let mut i: usize = 0;
    while i < transpile_packages.len()
        invariant
            i <= transpile_packages@.len(),
            packages == transpile_packages@.map_values(|p: String| p@),
            dirs@.len() == i,
            forall|k: int|
                0 <= k < i ==> in_directory(#[trigger] dirs@[k], "node_modules/"@ + packages[k]),
        decreases transpile_packages@.len() - i,
    {
        let dir = String::from_str("node_modules/").concat(transpile_packages[i].as_str());
        dirs.push(ContextCondition::InDirectory(dir));
        i = i + 1;
    }
    let mut all: Vec<ContextCondition> = Vec::new();
    all.push(ContextCondition::InDirectory(String::from_str("node_modules")));
    all.push(ContextCondition::Not(Box::new(ContextCondition::Any(dirs))));
    ContextCondition::All(all)
}

} // verus!
