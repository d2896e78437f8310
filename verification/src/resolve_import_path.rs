//! Resolution of an import specifier to a module identity.
//!
//! A specifier is tried against the resolution strategies in a fixed order:
//! a cross-package match against a known package name first, then a relative
//! path against the importing module's directory, then the configured
//! path-alias base of the owning package.  A path that denotes a directory
//! gets an `index` file name appended, and a fixed, ordered list of
//! extensions is tried until a file exists.  The first success wins; a
//! specifier no strategy resolves is unresolved, which is never fatal.
//!
//! The filesystem is consumed as a value: a `FileIndex` listing the existing
//! files, the existing directories and the parsed declaration-map artifacts,
//! all under canonical paths.

use vstd::prelude::*;

use crate::analyze_plan::Package;
use crate::analyze_plan::PackageV;
use crate::paths::join_path;
use crate::paths::normalize_segments;
use crate::paths::spec_join;
use crate::paths::spec_normalize;
use crate::paths::spec_split;
use crate::paths::split_path;
use crate::source_map::SourceMap;
use crate::tsconfig::TsConfig;
use crate::tsconfig::base_url_of;
use crate::tsconfig::spec_base_url;
use crate::vecset::vec_set_contains;

verus! {

/// The filesystem as resolution sees it: which canonical paths are files,
/// which are directories, and the declaration-map artifacts with their
/// parsed contents.
#[derive(Debug)]
pub struct FileIndex {
    pub files: Vec<String>,
    pub dirs: Vec<String>,
    pub maps: Vec<(String, SourceMap)>,
}

/// The spec-level value of a `FileIndex`.
pub struct FileIndexV {
    pub files: Seq<Seq<char>>,
    pub dirs: Seq<Seq<char>>,
    pub maps: Seq<(Seq<char>, Seq<Seq<char>>)>,
}

impl DeepView for FileIndex {
    type V = FileIndexV;

    open spec fn deep_view(&self) -> FileIndexV {
        FileIndexV {
            files: self.files.deep_view(),
            dirs: self.dirs.deep_view(),
            maps: self.maps.deep_view(),
        }
    }
}

/// A fatal resolution error: a declaration-map artifact that violates the
/// one-to-one mapping assumption.  An unresolvable specifier is never an
/// error: it is reported as a diagnostic and its edge dropped.
#[derive(Debug, PartialEq, Eq)]
pub enum ResolveError {
    /// The declaration-map artifact at this path names more than one (or no)
    /// original source: the mapping is assumed one to one.
    AmbiguousDeclarationMap(String),
}

/// The spec-level value of a `ResolveError`.
pub enum ResolveErrorV {
    AmbiguousDeclarationMap(Seq<char>),
}

impl DeepView for ResolveError {
    type V = ResolveErrorV;

    open spec fn deep_view(&self) -> ResolveErrorV {
        match self {
            ResolveError::AmbiguousDeclarationMap(s) => ResolveErrorV::AmbiguousDeclarationMap(s@),
        }
    }
}

/// The ordered list of extensions tried during resolution.  The order is a
/// tie-break policy: the first extension with an existing file wins.
pub open spec fn spec_extensions() -> Seq<Seq<char>> {
    seq![
        seq!['t', 's'],
        seq!['t', 's', 'x'],
        seq!['j', 's'],
        seq!['j', 's', 'x'],
        seq!['m', 'j', 's'],
        seq!['m', 't', 's'],
    ]
}

/// The file name appended to a path that denotes a directory.
pub open spec fn index_file_name() -> Seq<char> {
    seq!['i', 'n', 'd', 'e', 'x']
}

/// The suffix appended to a type-declaration entry point to name its
/// declaration-map artifact.
pub open spec fn map_suffix() -> Seq<char> {
    seq!['.', 'm', 'a', 'p']
}

/// The suffix appended to a sub-path of a compiled package to name its
/// per-path declaration-map artifact.
pub open spec fn d_ts_map_suffix() -> Seq<char> {
    seq!['.', 'd', '.', 't', 's', '.', 'm', 'a', 'p']
}

/// The canonical path of the file the segments denote, if one exists.
pub open spec fn file_exists_at(index: FileIndexV, segs: Seq<Seq<char>>) -> Option<Seq<char>> {
    match spec_normalize(segs) {
        None => None,
        Some(n) => {
            let c = spec_join(n);
            if index.files.contains(c) {
                Some(c)
            } else {
                None
            }
        },
    }
}

/// Whether the segments denote an existing directory.
pub open spec fn dir_exists_at(index: FileIndexV, segs: Seq<Seq<char>>) -> bool {
    match spec_normalize(segs) {
        None => false,
        Some(n) => index.dirs.contains(spec_join(n)),
    }
}

/// The segments with `.` and the extension appended to the file name (the
/// last segment).
pub open spec fn spec_with_ext(segs: Seq<Seq<char>>, ext: Seq<char>) -> Seq<Seq<char>> {
    segs.update(segs.len() - 1, segs.last() + seq!['.'] + ext)
}

/// Tries the extensions in order against the file name the segments end in;
/// the first existing file wins.
pub open spec fn try_exts_from(
    index: FileIndexV,
    segs: Seq<Seq<char>>,
    exts: Seq<Seq<char>>,
) -> Option<Seq<char>>
    decreases exts.len(),
{
    if exts.len() == 0 {
        None
    } else {
        match file_exists_at(index, spec_with_ext(segs, exts[0])) {
            Some(c) => Some(c),
            None => try_exts_from(index, segs, exts.drop_first()),
        }
    }
}

/// Resolves a candidate path: an existing directory gets `index` appended;
/// then the path itself and the fixed extensions are tried in order.
pub open spec fn spec_resolve_candidates(index: FileIndexV, segs: Seq<Seq<char>>) -> Option<
    Seq<char>,
> {
    let with_index = if dir_exists_at(index, segs) {
        segs.push(index_file_name())
    } else {
        segs
    };
    match file_exists_at(index, with_index) {
        Some(c) => Some(c),
        None => try_exts_from(index, with_index, spec_extensions()),
    }
}

/// Whether `p` is a prefix of `s`.
pub open spec fn str_prefix(p: Seq<char>, s: Seq<char>) -> bool {
    p.len() <= s.len() && s.subrange(0, p.len() as int) == p
}

/// The part of the specifier after the matched package name, with one
/// leading `/` stripped.
pub open spec fn spec_rest_after_name(import: Seq<char>, name: Seq<char>) -> Seq<char> {
    let rest = import.skip(name.len() as int);
    if rest.len() > 0 && rest[0] == '/' {
        rest.drop_first()
    } else {
        rest
    }
}

/// The parsed contents of the declaration-map artifact at `key`, if one is
/// listed.
pub open spec fn map_lookup(maps: Seq<(Seq<char>, Seq<Seq<char>>)>, key: Seq<char>) -> Option<
    Seq<Seq<char>>,
>
    decreases maps.len(),
{
    if maps.len() == 0 {
        None
    } else if maps[0].0 == key {
        Some(maps[0].1)
    } else {
        map_lookup(maps.drop_first(), key)
    }
}

/// The declaration-map artifact a cross-package match consults, if one is
/// listed: the entry point's artifact for an exact name match with a
/// declared types entry, the per-path artifact for a sub-path.  `None` when
/// no artifact applies or none is listed.
pub open spec fn spec_map_of(import: Seq<char>, pkg: PackageV, index: FileIndexV) -> Option<
    (Seq<Seq<char>>, Seq<Seq<char>>),
> {
    let name = pkg.package_json.name;
    if import == name && pkg.package_json.types is None {
        None
    } else {
        let map_segs = if import == name {
            spec_split(pkg.path) + spec_split(pkg.package_json.types->0 + map_suffix())
        } else {
            spec_split(pkg.path) + spec_split(
                spec_rest_after_name(import, name) + d_ts_map_suffix(),
            )
        };
        match spec_normalize(map_segs) {
            None => None,
            Some(nm) => if nm.len() == 0 {
                None
            } else {
                match map_lookup(index.maps, spec_join(nm)) {
                    None => None,
                    Some(sources) => Some((nm, sources)),
                }
            },
        }
    }
}

/// Resolves a specifier that matched the package name of `pkg`.  When a
/// declaration-map artifact is listed it redirects to the single original
/// source it names, unresolved when that source does not exist; an
/// ambiguous artifact is fatal.  Without an artifact the specifier is
/// rewritten to the package root plus the remainder and resolved through
/// the normal candidates (directory index, extension order); a rewritten
/// path no candidate makes into an existing file is unresolved, never
/// fatal.
pub open spec fn spec_package_resolve(
    import: Seq<char>,
    pkg: PackageV,
    index: FileIndexV,
) -> Result<Option<Seq<char>>, ResolveErrorV> {
    match spec_map_of(import, pkg, index) {
        Some((nm, sources)) => if sources.len() != 1 {
            Err(ResolveErrorV::AmbiguousDeclarationMap(spec_join(nm)))
        } else {
            Ok(file_exists_at(index, nm.drop_last() + spec_split(sources[0])))
        },
        None => Ok(
            spec_resolve_candidates(
                index,
                spec_split(pkg.path) + spec_split(
                    spec_rest_after_name(import, pkg.package_json.name),
                ),
            ),
        ),
    }
}

/// Tries the packages in order: the first whose name is a prefix of the
/// specifier claims it.  `Ok(None)` when no package name matches;
/// `Ok(Some(r))` when one does, with `r` the outcome of resolving through
/// that package.
pub open spec fn spec_monorepo(
    import: Seq<char>,
    packages: Seq<PackageV>,
    index: FileIndexV,
) -> Result<Option<Option<Seq<char>>>, ResolveErrorV>
    decreases packages,
{
    if packages.len() == 0 {
        Ok(None)
    } else if str_prefix(packages[0].package_json.name, import) {
        match spec_package_resolve(import, packages[0], index) {
            Ok(r) => Ok(Some(r)),
            Err(e) => Err(e),
        }
    } else {
        spec_monorepo(import, packages.drop_first(), index)
    }
}

/// The whole resolution order, first success wins: cross-package match,
/// then relative against the importing module's directory, then the
/// path-alias base of the owning package; a specifier none of them covers
/// is unresolved (`Ok(None)`), as is a candidate path no extension makes
/// into an existing file.
pub open spec fn spec_resolve_import_path(
    current: Seq<char>,
    import: Seq<char>,
    base_url: Option<Seq<char>>,
    package_root: Seq<char>,
    packages: Seq<PackageV>,
    index: FileIndexV,
) -> Result<Option<Seq<char>>, ResolveErrorV> {
    match spec_monorepo(import, packages, index) {
        Err(e) => Err(e),
        Ok(Some(r)) => Ok(r),
        Ok(None) => {
            if import.len() > 0 && import[0] == '.' {
                Ok(
                    spec_resolve_candidates(
                        index,
                        spec_split(current).drop_last() + spec_split(import),
                    ),
                )
            } else if base_url is Some {
                Ok(
                    spec_resolve_candidates(
                        index,
                        spec_split(package_root) + spec_split(base_url->0) + spec_split(import),
                    ),
                )
            } else {
                Ok(None)
            }
        },
    }
}

/// Concatenates two string slices.
fn concat_str(a: &str, b: &str) -> (r: String)
    ensures
        r@ == a@ + b@,
{
    let mut s = String::from_str(a);
    s.append(b);
    s
}

/// Whether `p` is a prefix of `s`.
fn is_prefix_of(p: &String, s: &String) -> (r: bool)
    ensures
        r == str_prefix(p@, s@),
{
    let pn = p.as_str().unicode_len();
    let sn = s.as_str().unicode_len();
    if pn > sn {
        assert(!str_prefix(p@, s@));
        return false;
    }
    let mut i: usize = 0;
    while i < pn
        invariant
            pn == p@.len(),
            sn == s@.len(),
            pn <= sn,
            i <= pn,
            forall|k: int| 0 <= k < i ==> p@[k] == s@[k],
        decreases pn - i,
    {
        if p.as_str().get_char(i) != s.as_str().get_char(i) {
            assert(s@.subrange(0, p@.len() as int)[i as int] != p@[i as int]);
            return false;
        }
        i += 1;
    }
    proof {
        assert(s@.subrange(0, p@.len() as int) =~= p@);
    }
    true
}

/// The canonical path of the file the segments denote, if one exists.
fn file_at(index: &FileIndex, segs: &Vec<String>) -> (r: Option<String>)
    ensures
        r.deep_view() == file_exists_at(index.deep_view(), segs.deep_view()),
{
    match normalize_segments(segs) {
        None => None,
        Some(n) => {
            let joined = join_path(&n);
            if vec_set_contains(&index.files, &joined) {
                Some(joined)
            } else {
                None
            }
        },
    }
}

/// Whether the segments denote an existing directory.
fn dir_at(index: &FileIndex, segs: &Vec<String>) -> (r: bool)
    ensures
        r == dir_exists_at(index.deep_view(), segs.deep_view()),
{
    match normalize_segments(segs) {
        None => false,
        Some(n) => {
            let joined = join_path(&n);
            vec_set_contains(&index.dirs, &joined)
        },
    }
}

/// The segments with `.` and the extension appended to the file name.
fn with_ext(segs: &Vec<String>, ext: &str) -> (r: Vec<String>)
    requires
        segs@.len() >= 1,
    ensures
        r.deep_view() == spec_with_ext(segs.deep_view(), ext@),
{
    let mut r: Vec<String> = Vec::new();
    let n = segs.len();
    let mut i: usize = 0;
    while i < n - 1
        invariant
            n == segs@.len(),
            1 <= n,
            i <= n - 1,
            r@.len() == i,
            forall|k: int| 0 <= k < i ==> r@[k]@ == segs@[k]@,
        decreases n - 1 - i,
    {
        let c = segs[i].clone();
        r.push(c);
        i += 1;
    }
    let mut last = segs[n - 1].clone();
    last.append(".");
    last.append(ext);
    r.push(last);
    proof {
        reveal_strlit(".");
        let target = spec_with_ext(segs.deep_view(), ext@);
        assert(r@.len() == n);
        assert(target.len() == n);
        assert(last@ == segs@[n - 1]@ + "."@ + ext@);
        assert("."@ =~= seq!['.']);
        assert forall|k: int| 0 <= k < n implies r.deep_view()[k] == target[k] by {
            assert(r.deep_view()[k] == r@[k]@);
            if k < n - 1 {
                assert(r@[k]@ == segs@[k]@);
                assert(target[k] == segs.deep_view()[k]);
                assert(segs.deep_view()[k] == segs@[k]@);
            } else {
                assert(r@[k] == last);
                assert(target[k] == segs.deep_view().last() + seq!['.'] + ext@);
                assert(segs.deep_view().last() == segs@[n - 1]@);
            }
        }
        assert(r.deep_view() =~~= target);
    }
    r
}

/// Resolves a candidate path: an existing directory gets `index` appended,
/// then the path itself and the extensions are tried in order.
fn resolve_candidates(index: &FileIndex, segs: Vec<String>) -> (r: Option<String>)
    requires
        segs@.len() >= 1,
    ensures
        r.deep_view() == spec_resolve_candidates(index.deep_view(), segs.deep_view()),
{
    let mut path = segs;
    let ghost orig = path.deep_view();
    if dir_at(index, &path) {
        path.push(String::from_str("index"));
        proof {
            assert("index"@ =~= index_file_name()) by {
                reveal_strlit("index");
            }
            assert(path.deep_view() =~~= orig.push(index_file_name()));
        }
    }
    let ghost based = path.deep_view();
    if let Some(c) = file_at(index, &path) {
        proof {
            assert(file_exists_at(index.deep_view(), based) == Some(c@));
            assert(based == (if dir_exists_at(index.deep_view(), orig) {
                orig.push(index_file_name())
            } else {
                orig
            }));
            assert(spec_resolve_candidates(index.deep_view(), orig) == Some(c@));
        }
        return Some(c);
    }
    let exts: Vec<&str> = vec!["ts", "tsx", "js", "jsx", "mjs", "mts"];
    proof {
        reveal_strlit("ts");
        reveal_strlit("tsx");
        reveal_strlit("js");
        reveal_strlit("jsx");
        reveal_strlit("mjs");
        reveal_strlit("mts");
        assert(exts.deep_view() =~~= spec_extensions());
        assert(spec_extensions().skip(0) =~= spec_extensions());
    }
    let mut i: usize = 0;
    proof {
        assert(spec_resolve_candidates(index.deep_view(), orig) == try_exts_from(
            index.deep_view(),
            based,
            spec_extensions(),
        ));
    }
    while i < 6
        invariant
            exts.deep_view() == spec_extensions(),
            exts@.len() == 6,
            based.len() >= 1,
            path.deep_view() == based,
            path@.len() >= 1,
            i <= 6,
            orig == segs.deep_view(),
            spec_resolve_candidates(index.deep_view(), orig) == try_exts_from(
                index.deep_view(),
                based,
                spec_extensions().skip(i as int),
            ),
        decreases 6 - i,
    {
        let cand = with_ext(&path, exts[i]);
        proof {
            assert(exts@[i as int]@ == exts.deep_view()[i as int]);
            assert(exts.deep_view()[i as int] == spec_extensions()[i as int]);
            assert(cand.deep_view() == spec_with_ext(based, spec_extensions()[i as int]));
            assert(spec_extensions().skip(i as int).drop_first() =~= spec_extensions().skip(
                i as int + 1,
            ));
            assert(spec_extensions().skip(i as int)[0] == spec_extensions()[i as int]);
        }
        if let Some(c) = file_at(index, &cand) {
            proof {
                assert(file_exists_at(index.deep_view(), cand.deep_view()) == Some(c@));
                assert(try_exts_from(index.deep_view(), based, spec_extensions().skip(i as int))
                    == Some(c@));
            }
            return Some(c);
        }
        i += 1;
    }
    proof {
        assert(spec_extensions().skip(6) =~= Seq::<Seq<char>>::empty());
    }
    None
}

/// Appends a copy of every segment of `src` to `dst`.
fn append_all(dst: &mut Vec<String>, src: &Vec<String>)
    ensures
        final(dst).deep_view() == old(dst).deep_view() + src.deep_view(),
{
    let n = src.len();
    let mut i: usize = 0;
    while i < n
        invariant
            n == src@.len(),
            i <= n,
            dst@.len() == old(dst)@.len() + i,
            forall|k: int| 0 <= k < old(dst)@.len() ==> dst@[k]@ == old(dst)@[k]@,
            forall|k: int| 0 <= k < i ==> dst@[old(dst)@.len() + k]@ == src@[k]@,
        decreases n - i,
    {
        let c = src[i].clone();
        dst.push(c);
        i += 1;
    }
    proof {
        assert forall|k: int| 0 <= k < dst@.len() implies dst.deep_view()[k] == (old(
            dst,
        ).deep_view() + src.deep_view())[k] by {
            assert(dst.deep_view()[k] == dst@[k]@);
            if k < old(dst)@.len() {
                assert(old(dst).deep_view()[k] == old(dst)@[k]@);
            } else {
                assert(src.deep_view()[k - old(dst)@.len()] == src@[k - old(dst)@.len()]@);
            }
        }
        assert(dst.deep_view() =~~= old(dst).deep_view() + src.deep_view());
    }
}

/// A copy of the first `count` segments of `v`.
fn prefix_segments(v: &Vec<String>, count: usize) -> (r: Vec<String>)
    requires
        count <= v@.len(),
    ensures
        r.deep_view() == v.deep_view().take(count as int),
{
    let mut r: Vec<String> = Vec::new();
    let mut i: usize = 0;
    while i < count
        invariant
            count <= v@.len(),
            i <= count,
            r@.len() == i,
            forall|k: int| 0 <= k < i ==> r@[k]@ == v@[k]@,
        decreases count - i,
    {
        let c = v[i].clone();
        r.push(c);
        i += 1;
    }
    proof {
        assert forall|k: int| 0 <= k < count implies r.deep_view()[k] == v.deep_view().take(
            count as int,
        )[k] by {
            assert(r.deep_view()[k] == r@[k]@);
            assert(v.deep_view()[k] == v@[k]@);
        }
        assert(r.deep_view() =~~= v.deep_view().take(count as int));
    }
    r
}

/// The parsed declaration-map contents at `key`, if one is listed.
fn lookup_map<'a>(maps: &'a Vec<(String, SourceMap)>, key: &String) -> (r: Option<
    &'a SourceMap,
>)
    ensures
        match r {
            Some(m) => map_lookup(maps.deep_view(), key@) == Some(m.deep_view()),
            None => map_lookup(maps.deep_view(), key@) is None,
        },
{
    let n = maps.len();
    let mut i: usize = 0;
    proof {
        assert(maps.deep_view().skip(0) =~~= maps.deep_view());
    }
    while i < n
        invariant
            n == maps@.len(),
            i <= n,
            map_lookup(maps.deep_view(), key@) == map_lookup(
                maps.deep_view().skip(i as int),
                key@,
            ),
        decreases n - i,
    {
        proof {
            assert(maps.deep_view()[i as int] == maps@[i as int].deep_view());
            assert(maps.deep_view().skip(i as int)[0] == maps.deep_view()[i as int]);
            assert(maps.deep_view().skip(i as int).drop_first() =~~= maps.deep_view().skip(
                i as int + 1,
            ));
        }
        if maps[i].0 == *key {
            return Some(&maps[i].1);
        }
        i += 1;
    }
    None
}

/// The part of the specifier after the matched package name, with one
/// leading `/` stripped.
fn rest_after_name(import_str: &String, name: &String) -> (r: String)
    requires
        str_prefix(name@, import_str@),
    ensures
        r@ == spec_rest_after_name(import_str@, name@),
{
    let ilen = import_str.as_str().unicode_len();
    let nlen = name.as_str().unicode_len();
    let rest = import_str.as_str().substring_char(nlen, ilen);
    proof {
        assert(rest@ =~= import_str@.skip(name@.len() as int));
    }
    if rest.unicode_len() > 0 && rest.get_char(0) == '/' {
        let stripped = rest.substring_char(1, rest.unicode_len());
        proof {
            assert(stripped@ =~= import_str@.skip(name@.len() as int).drop_first());
        }
        String::from_str(stripped)
    } else {
        String::from_str(rest)
    }
}

/// Resolves the rewritten path of a cross-package match: the package root
/// plus the remainder of the specifier, through the normal candidates.
fn rewritten_resolve(import_str: &String, pkg: &Package, index: &FileIndex) -> (r: Option<String>)
    requires
        str_prefix(pkg.package_json.name@, import_str@),
    ensures
        r.deep_view() == spec_resolve_candidates(
            index.deep_view(),
            spec_split(pkg.deep_view().path) + spec_split(
                spec_rest_after_name(import_str@, pkg.deep_view().package_json.name),
            ),
        ),
{
    let rest = rest_after_name(import_str, &pkg.package_json.name);
    let mut base = split_path(pkg.path.as_str());
    let rest_segs = split_path(rest.as_str());
    append_all(&mut base, &rest_segs);
    proof {
        assert(base.deep_view().len() == base@.len());
    }
    resolve_candidates(index, base)
}

/// Resolves a specifier that matched the package name of `pkg`.  A listed
/// declaration-map artifact redirects to the single original source it
/// names (unresolved when that source does not exist; more than one named
/// source is fatal).  Without an artifact the specifier is rewritten to the
/// package root plus the remainder and resolved through the normal
/// candidates; finding nothing there is unresolved, never fatal.
fn package_resolve(import_str: &String, pkg: &Package, index: &FileIndex) -> (r: Result<
    Option<String>,
    ResolveError,
>)
    requires
        str_prefix(pkg.package_json.name@, import_str@),
    ensures
        match r {
            Ok(o) => spec_package_resolve(import_str@, pkg.deep_view(), index.deep_view())
                == Ok::<Option<Seq<char>>, ResolveErrorV>(o.deep_view()),
            Err(e) => spec_package_resolve(import_str@, pkg.deep_view(), index.deep_view())
                == Err::<Option<Seq<char>>, ResolveErrorV>(e.deep_view()),
        },
{
    let name = &pkg.package_json.name;
    let exact = *import_str == *name;
    let ghost mv = spec_map_of(import_str@, pkg.deep_view(), index.deep_view());
    let tail_opt: Option<String> = if exact {
        match &pkg.package_json.types {
            None => None,
            Some(t) => {
                let c = concat_str(t.as_str(), ".map");
                proof {
                    assert(".map"@ =~= map_suffix()) by {
                        reveal_strlit(".map");
                    }
                }
                Some(c)
            },
        }
    } else {
        let rest = rest_after_name(import_str, name);
        let c = concat_str(rest.as_str(), ".d.ts.map");
        proof {
            assert(".d.ts.map"@ =~= d_ts_map_suffix()) by {
                reveal_strlit(".d.ts.map");
            }
        }
        Some(c)
    };
    match tail_opt {
        None => {
            proof {
                assert(mv is None);
            }
            Ok(rewritten_resolve(import_str, pkg, index))
        },
        Some(tail) => {
            let mut map_segs = split_path(pkg.path.as_str());
            let tail_segs = split_path(tail.as_str());
            append_all(&mut map_segs, &tail_segs);
            let ghost map_segs_v = if import_str@ == pkg.deep_view().package_json.name {
                spec_split(pkg.deep_view().path) + spec_split(
                    pkg.deep_view().package_json.types->0 + map_suffix(),
                )
            } else {
                spec_split(pkg.deep_view().path) + spec_split(
                    spec_rest_after_name(import_str@, pkg.deep_view().package_json.name)
                        + d_ts_map_suffix(),
                )
            };
            proof {
                assert(map_segs.deep_view() == map_segs_v);
            }
            match normalize_segments(&map_segs) {
                None => {
                    proof {
                        assert(mv is None);
                    }
                    Ok(rewritten_resolve(import_str, pkg, index))
                },
                Some(nm) => {
                    let mkey = join_path(&nm);
                    if nm.len() == 0 {
                        proof {
                            assert(mv is None);
                        }
                        Ok(rewritten_resolve(import_str, pkg, index))
                    } else {
                        match lookup_map(&index.maps, &mkey) {
                            None => {
                                proof {
                                    assert(mv is None);
                                }
                                Ok(rewritten_resolve(import_str, pkg, index))
                            },
                            Some(sm) => {
                                proof {
                                    assert(mv == Some((nm.deep_view(), sm.deep_view())));
                                }
                                if sm.sources.len() != 1 {
                                    Err(ResolveError::AmbiguousDeclarationMap(mkey))
                                } else {
                                    let src_segs = split_path(sm.sources[0].as_str());
                                    let mut target = prefix_segments(&nm, nm.len() - 1);
                                    append_all(&mut target, &src_segs);
                                    proof {
                                        assert(nm.deep_view().take(nm.deep_view().len() - 1)
                                            =~~= nm.deep_view().drop_last());
                                        assert(sm.sources.deep_view()[0] == sm.deep_view()[0]);
                                    }
                                    Ok(file_at(index, &target))
                                }
                            },
                        }
                    }
                },
            }
        },
    }
}

/// Tries the packages in order: the first whose name is a prefix of the
/// specifier claims it.  `Ok(None)` when no package name matches,
/// `Ok(Some(r))` when one does, with `r` the outcome of resolving through
/// that package.
fn monorepo_resolve(
    import_str: &String,
    packages: &Vec<Package>,
    index: &FileIndex,
) -> (r: Result<Option<Option<String>>, ResolveError>)
    ensures
        match r {
            Ok(o) => spec_monorepo(import_str@, packages.deep_view(), index.deep_view())
                == Ok::<Option<Option<Seq<char>>>, ResolveErrorV>(o.deep_view()),
            Err(e) => spec_monorepo(import_str@, packages.deep_view(), index.deep_view())
                == Err::<Option<Option<Seq<char>>>, ResolveErrorV>(e.deep_view()),
        },
{
    let n = packages.len();
    let mut i: usize = 0;
    proof {
        assert(packages.deep_view().skip(0) =~~= packages.deep_view());
    }
    while i < n
        invariant
            n == packages@.len(),
            i <= n,
            spec_monorepo(import_str@, packages.deep_view(), index.deep_view())
                == spec_monorepo(
                import_str@,
                packages.deep_view().skip(i as int),
                index.deep_view(),
            ),
        decreases n - i,
    {
        let pkg = &packages[i];
        proof {
            assert(packages.deep_view()[i as int] == packages@[i as int].deep_view());
            assert(packages.deep_view().skip(i as int)[0] == packages.deep_view()[i as int]);
            assert(packages.deep_view().skip(i as int).drop_first() =~~= packages.deep_view().skip(
                i as int + 1,
            ));
        }
        if is_prefix_of(&pkg.package_json.name, import_str) {
            match package_resolve(import_str, pkg, index) {
                Ok(o) => {
                    return Ok(Some(o));
                },
                Err(e) => {
                    return Err(e);
                },
            }
        }
        i += 1;
    }
    Ok(None)
}

/// The flattened outcome of the cross-package strategy: the canonical path
/// of a claimed and resolved specifier; anything else is `None`.
pub open spec fn spec_monorepo_flat(r: Option<Option<Seq<char>>>) -> Option<Seq<char>> {
    match r {
        Some(o) => o,
        None => None,
    }
}

/// Tries the packages in order: the first whose name is a prefix of the
/// specifier claims it, and resolution goes through its declaration-map
/// artifact or its rewritten root path.  `Ok(None)` when no package name
/// matches or the claimed specifier stays unresolved.
pub fn try_resolve_as_monorepo_package(
    import_str: &String,
    packages: &Vec<Package>,
    index: &FileIndex,
) -> (r: Result<Option<String>, ResolveError>)
    ensures
        match r {
            Ok(o) => spec_monorepo(import_str@, packages.deep_view(), index.deep_view())
                matches Ok(mr) && spec_monorepo_flat(mr) == o.deep_view(),
            Err(e) => spec_monorepo(import_str@, packages.deep_view(), index.deep_view())
                == Err::<Option<Option<Seq<char>>>, ResolveErrorV>(e.deep_view()),
        },
{
    match monorepo_resolve(import_str, packages, index) {
        Err(e) => Err(e),
        Ok(Some(o)) => Ok(o),
        Ok(None) => Ok(None),
    }
}

/// Resolves an import specifier written in the module at `current_path` to
/// the canonical path of the module it names.  The strategies are tried in
/// a fixed order, first success wins: a cross-package match against a known
/// package name, a relative path against the importing module's directory,
/// the configured path-alias base of the owning package.  A path that
/// denotes a directory gets `index` appended, and the fixed extension list
/// is tried in order until a file exists.  `Ok(None)` is an unresolved
/// specifier, which is never fatal; `Err` is a fatal inconsistency in the
/// cross-package artifacts.
pub fn resolve_import_path(
    current_path: &String,
    import_str: &String,
    tsconfig: &Option<TsConfig>,
    package_base_path: &String,
    packages: &Vec<Package>,
    index: &FileIndex,
) -> (r: Result<Option<String>, ResolveError>)
    ensures
        match r {
            Ok(o) => spec_resolve_import_path(
                current_path@,
                import_str@,
                spec_base_url(*tsconfig),
                package_base_path@,
                packages.deep_view(),
                index.deep_view(),
            ) == Ok::<Option<Seq<char>>, ResolveErrorV>(o.deep_view()),
            Err(e) => spec_resolve_import_path(
                current_path@,
                import_str@,
                spec_base_url(*tsconfig),
                package_base_path@,
                packages.deep_view(),
                index.deep_view(),
            ) == Err::<Option<Seq<char>>, ResolveErrorV>(e.deep_view()),
        },
{
    match monorepo_resolve(import_str, packages, index) {
        Err(e) => {
            return Err(e);
        },
        Ok(Some(o)) => {
            return Ok(o);
        },
        Ok(None) => {},
    }
    let il = import_str.as_str().unicode_len();
    let relative = il > 0 && import_str.as_str().get_char(0) == '.';
    if relative {
        let mut base = split_path(current_path.as_str());
        let _ = base.pop();
        proof {
            assert(base.deep_view() =~~= spec_split(current_path@).drop_last());
        }
        let import_segs = split_path(import_str.as_str());
        append_all(&mut base, &import_segs);
        let res = resolve_candidates(index, base);
        Ok(res)
    } else {
        match base_url_of(tsconfig) {
            Some(b) => {
                let mut base = split_path(package_base_path.as_str());
                let url_segs = split_path(b.as_str());
                append_all(&mut base, &url_segs);
                let import_segs = split_path(import_str.as_str());
                append_all(&mut base, &import_segs);
                let res = resolve_candidates(index, base);
                Ok(res)
            },
            None => Ok(None),
        }
    }
}

} // verus!
